//! Accounts: registration and password rules, API keys and the session cookie.

use vstd::prelude::*;
use crate::crypto::{hex_encode, hex_lower};
use crate::error::AppError;
use crate::text::{
    chars_of, eq_ignore_ascii_case, eq_ignore_ascii_case_exec, extend_str, string_from_str,
    string_of, trim, trim_str,
};

verus! {

/// Body of `POST /api/v1/auth/register`.
pub struct RegisterRequest {
    pub username: String,
    pub password: String,
    /// Required when at least one user already exists.
    pub invite_code: Option<String>,
}

/// Body of `POST /api/v1/auth/login`.
pub struct LoginRequest {
    pub username: String,
    pub password: String,
}

/// What a successful registration or login answers.
pub struct AuthResponse {
    pub user_id: String,
    pub username: String,
    pub is_owner: bool,
    pub session_id: String,
}

/// Body of `POST /api/v1/auth/api-keys`.
pub struct CreateApiKeyRequest {
    pub label: String,
}

/// A new API key, shown once in full.
pub struct ApiKeyResponse {
    /// Full key: "irs_<prefix>.<secret>"
    pub key: String,
    pub prefix: String,
    pub label: String,
}

/// An API key as listed (without its secret).
pub struct ApiKeySummary {
    pub id: String,
    pub prefix: String,
    pub label: String,
    pub created_at: String,
}

/// Body of `POST /api/v1/auth/login/2fa`.
pub struct TwoFactorLoginRequest {
    pub token: String,
    pub code: String,
}

/// Body of `PUT /api/v1/auth/password`.
pub struct ChangePasswordRequest {
    pub current_password: String,
    pub new_password: String,
}

/// Unicode control characters (general category Cc), as `char::is_control`.
pub open spec fn is_control(c: char) -> bool {
    (c as u32) < 0x20 || (0x7f <= (c as u32) && (c as u32) < 0xa0)
}

/// What registration makes of a request before any database work: the
/// password must have 8 to 1024 characters, and the trimmed username 1 to 64
/// characters and no control character. `Ok` carries the trimmed username.
pub open spec fn registration_check(username: Seq<char>, password: Seq<char>) -> Result<
    Seq<char>,
    Seq<char>,
> {
    let name = trim(username);
    if password.len() < 8 {
        Err("Password must be at least 8 characters"@)
    } else if password.len() > 1024 {
        Err("Password must not exceed 1024 characters"@)
    } else if name.len() == 0 || name.len() > 64 {
        Err("Username must be 1-64 characters"@)
    } else if exists|i: int| 0 <= i < name.len() && is_control(#[trigger] name[i]) {
        Err("Username must not contain control characters"@)
    } else {
        Ok(name)
    }
}

/// Whether a character is a control character.
fn is_control_exec(c: char) -> (r: bool)
    ensures
        r == is_control(c),
{
    let v = c as u32;
    v < 0x20 || (0x7f <= v && v < 0xa0)
}

/// Check a registration request; on success, the username to store (trimmed).
pub fn validate_registration(request: &RegisterRequest) -> (r: Result<String, AppError>)
    ensures
        match registration_check(request.username@, request.password@) {
            Ok(name) => r matches Ok(n) && n@ == name,
            Err(m) => r matches Err(e) && e matches AppError::BadRequest(x) && x@ == m,
        },
{
    let pw = chars_of(request.password.as_str());
    if pw.len() < 8 {
        return Err(AppError::BadRequest(string_from_str("Password must be at least 8 characters")));
    }
    if pw.len() > 1024 {
        return Err(
            AppError::BadRequest(string_from_str("Password must not exceed 1024 characters")),
        );
    }
    let name = trim_str(request.username.as_str());
    if name.len() == 0 || name.len() > 64 {
        return Err(AppError::BadRequest(string_from_str("Username must be 1-64 characters")));
    }
    let mut i: usize = 0;
    while i < name.len()
        invariant
            i <= name.len(),
            name@ == trim(request.username@),
            8 <= request.password@.len() <= 1024,
            name@.len() > 0,
            name@.len() <= 64,
            forall|j: int| 0 <= j < i ==> !is_control(#[trigger] name@[j]),
        decreases name.len() - i,
    {
        if is_control_exec(name[i]) {
            assert(is_control(name@[i as int]));
            return Err(
                AppError::BadRequest(string_from_str("Username must not contain control characters")),
            );
        }
        i = i + 1;
    }
    Ok(string_of(&name))
}

/// Every user after the first needs an invite code.
pub fn check_invite_present(is_first_user: bool, invite_code: Option<&str>) -> (r: Result<
    (),
    AppError,
>)
    ensures
        r is Ok <==> (is_first_user || (invite_code matches Some(c) && c@.len() > 0)),
        r matches Err(e) ==> e matches AppError::Forbidden(m) && m@ == "Invite code required"@,
{
    if !is_first_user {
        let code = match invite_code {
            Some(c) => chars_of(c),
            None => Vec::new(),
        };
        if code.len() == 0 {
            return Err(AppError::Forbidden(string_from_str("Invite code required")));
        }
    }
    Ok(())
}

/// Check a new password for a password change: 8 to 1024 characters.
pub fn validate_new_password(new_password: &str) -> (r: Result<(), AppError>)
    ensures
        r is Ok <==> 8 <= new_password@.len() <= 1024,
        r matches Err(e) ==> e matches AppError::BadRequest(m) && m@ == if new_password@.len()
            < 8 {
            "New password must be at least 8 characters"@
        } else {
            "New password must not exceed 1024 characters"@
        },
{
    let pw = chars_of(new_password);
    if pw.len() < 8 {
        return Err(
            AppError::BadRequest(string_from_str("New password must be at least 8 characters")),
        );
    }
    if pw.len() > 1024 {
        return Err(
            AppError::BadRequest(string_from_str("New password must not exceed 1024 characters")),
        );
    }
    Ok(())
}

/// The error a failed password check answers: 429 with the retry delay when
/// this failure locked the account, else 401.
pub fn failed_login_error(now_locked: bool, retry_after: u64) -> (e: AppError)
    ensures
        now_locked ==> e == AppError::TooManyRequests(retry_after),
        !now_locked ==> (e matches AppError::Unauthorized(m) && m@ == "Invalid credentials"@),
{
    if now_locked {
        AppError::TooManyRequests(retry_after)
    } else {
        AppError::Unauthorized(string_from_str("Invalid credentials"))
    }
}

/// The `Set-Cookie` value of a session: `Secure` when the server runs behind
/// TLS or the request came through a proxy that says `https`.
pub open spec fn session_cookie_of(
    session_id: Seq<char>,
    tls_enabled: bool,
    forwarded_proto: Option<Seq<char>>,
) -> Seq<char> {
    let secure = tls_enabled || (forwarded_proto matches Some(p) && eq_ignore_ascii_case(
        p,
        "https"@,
    ));
    "ironshelf_session="@ + session_id + "; HttpOnly; SameSite=Lax; Path=/; Max-Age=604800"@ + (
    if secure {
        "; Secure"@
    } else {
        ""@
    })
}

/// Build the session cookie.
pub fn build_session_cookie(
    session_id: &str,
    tls_enabled: bool,
    forwarded_proto: Option<&str>,
) -> (out: String)
    ensures
        out@ == session_cookie_of(
            session_id@,
            tls_enabled,
            match forwarded_proto {
                Some(p) => Some(p@),
                None => None,
            },
        ),
{
    let secure = tls_enabled || match forwarded_proto {
        Some(p) => eq_ignore_ascii_case_exec(p, "https"),
        None => false,
    };
    let mut v = chars_of("ironshelf_session=");
    extend_str(&mut v, session_id);
    extend_str(&mut v, "; HttpOnly; SameSite=Lax; Path=/; Max-Age=604800");
    if secure {
        extend_str(&mut v, "; Secure");
    } else {
        extend_str(&mut v, "");
    }
    string_of(&v)
}

/// The full text of an API key: `irs_PREFIX.SECRET`.
pub fn api_key_text(prefix: &str, secret: &str) -> (out: String)
    ensures
        out@ == "irs_"@ + prefix@ + "."@ + secret@,
{
    let mut v = chars_of("irs_");
    extend_str(&mut v, prefix);
    extend_str(&mut v, ".");
    extend_str(&mut v, secret);
    string_of(&v)
}

/// A random token of `len` characters: the lowercase hex of `len` random
/// bytes, cut to `len` characters.
pub fn random_token_text(random_bytes: &[u8], len: usize) -> (out: String)
    requires
        random_bytes@.len() == len,
    ensures
        out@ == hex_lower(random_bytes@).take(len as int),
{
    let h = hex_encode(random_bytes);
    let c = chars_of(h.as_str());
    proof {
        crate::crypto::lemma_hex_len(random_bytes@);
    }
    let cut = crate::text::slice_chars(&c, 0, len);
    string_of(&cut)
}

} // verus!
