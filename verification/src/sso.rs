//! Single sign-on: OpenID Connect login (PKCE, token exchange, ID token
//! payload), Ironshelf Cloud access tokens, and the Kobo sync identifiers.
//!
//! The HTTP exchanges and the JSON parsing of claims are done by the caller;
//! this module builds what is sent and checks what comes back.

use vstd::prelude::*;
use crate::config::{Config, OidcConfig};
use crate::crypto::{b64_digit, b64_encode, b64_encode_exec, b64_standard_decode, hmac_sha256, hmac_sha256_verify, sha256, sha256_digest};
use crate::error::AppError;
use crate::media_token::utf8;
use crate::text::{
    chars_of, decimal, decimal_i64, extend_chars, extend_str, split_chars, split_on, string_from_str,
    string_of, trim_end_char, trim_end_char_exec, views,
};

verus! {

// ---------------------------------------------------------------------------
// OpenID Connect
// ---------------------------------------------------------------------------

/// Query of the OIDC callback.
pub struct OidcCallbackParams {
    pub code: String,
    pub state: String,
}

/// The OIDC configuration, which must be present.
pub fn get_oidc_config(config: &Config) -> (r: Result<&OidcConfig, AppError>)
    ensures
        match config.oidc {
            Some(c) => r matches Ok(x) && *x == c,
            None => r matches Err(e) && e matches AppError::BadRequest(m) && m@
                == "OIDC is not configured on this server"@,
        },
{
    match &config.oidc {
        Some(c) => Ok(c),
        None => Err(AppError::BadRequest(string_from_str("OIDC is not configured on this server"))),
    }
}

/// The provider's discovery document URL: the issuer without trailing
/// slashes, then `/.well-known/openid-configuration`.
pub fn discovery_url(issuer_url: &str) -> (out: String)
    ensures
        out@ == trim_end_char(issuer_url@, '/') + "/.well-known/openid-configuration"@,
{
    let i = chars_of(issuer_url);
    let mut v = trim_end_char_exec(&i, '/');
    extend_str(&mut v, "/.well-known/openid-configuration");
    string_of(&v)
}

/// The PKCE challenge of a verifier: base64url (no padding) of the SHA-256
/// digest of its UTF-8 bytes.
pub fn compute_pkce_challenge(verifier: &str) -> (out: String)
    ensures
        out@ == b64_encode(sha256(utf8(verifier@)), true, false),
{
    let hash = sha256_digest(verifier.as_bytes());
    base64_url_encode(hash.as_slice())
}

/// Base64url without padding.
pub fn base64_url_encode(input: &[u8]) -> (out: String)
    ensures
        out@ == b64_encode(input@, true, false),
{
    let v = b64_encode_exec(input, true, false);
    string_of(&v)
}

/// The value of a base64 character, the URL-safe `-` and `_` accepted for
/// `+` and `/`.
pub open spec fn b64_value(b: u8) -> Option<u8> {
    if 65 <= b <= 90 {
        Some((b - 65) as u8)
    } else if 97 <= b <= 122 {
        Some((b - 71) as u8)
    } else if 48 <= b <= 57 {
        Some((b + 4) as u8)
    } else if b == 43 || b == 45 {
        Some(62)
    } else if b == 47 || b == 95 {
        Some(63)
    } else {
        None
    }
}

/// The bytes that 6-bit values encode, four values giving three bytes; a
/// trailing group of three values gives two bytes, of two values one byte,
/// of one value none (leftover bits are dropped).
pub open spec fn bytes_of_values(v: Seq<u8>) -> Seq<u8>
    decreases v.len(),
{
    if v.len() >= 4 {
        seq![
            (v[0] * 4 + v[1] / 16) as u8,
            ((v[1] % 16) * 16 + v[2] / 4) as u8,
            ((v[2] % 4) * 64 + v[3]) as u8,
        ] + bytes_of_values(v.skip(4))
    } else if v.len() == 3 {
        seq![(v[0] * 4 + v[1] / 16) as u8, ((v[1] % 16) * 16 + v[2] / 4) as u8]
    } else if v.len() == 2 {
        seq![(v[0] * 4 + v[1] / 16) as u8]
    } else {
        seq![]
    }
}

/// The 6-bit values of some bytes read leniently: `=` is skipped wherever it
/// stands; `Err` carries the first byte that is no base64 character.
pub open spec fn lenient_values(input: Seq<u8>) -> Result<Seq<u8>, u8>
    decreases input.len(),
{
    if input.len() == 0 {
        Ok(seq![])
    } else {
        match lenient_values(input.drop_last()) {
            Err(b) => Err(b),
            Ok(vs) => {
                let b = input.last();
                if b == 61 {
                    Ok(vs)
                } else {
                    match b64_value(b) {
                        Some(v) => Ok(vs.push(v)),
                        None => Err(b),
                    }
                }
            },
        }
    }
}

/// The lenient base64url decoding of some bytes.
pub open spec fn lenient_decode(input: Seq<u8>) -> Result<Seq<u8>, u8> {
    match lenient_values(input) {
        Ok(vs) => Ok(bytes_of_values(vs)),
        Err(b) => Err(b),
    }
}

/// The value of a base64 byte, computed.
fn b64_value_exec(b: u8) -> (r: Option<u8>)
    ensures
        r == b64_value(b),
{
    if 65 <= b && b <= 90 {
        Some(b - 65)
    } else if 97 <= b && b <= 122 {
        Some(b - 71)
    } else if 48 <= b && b <= 57 {
        Some(b + 4)
    } else if b == 43 || b == 45 {
        Some(62)
    } else if b == 47 || b == 95 {
        Some(63)
    } else {
        None
    }
}

/// The bytes encoded by 6-bit values, computed.
fn bytes_of_values_exec(v: &Vec<u8>) -> (out: Vec<u8>)
    requires
        forall|i: int| 0 <= i < v@.len() ==> #[trigger] v@[i] < 64,
    ensures
        out@ == bytes_of_values(v@),
{
    let mut out: Vec<u8> = Vec::new();
    let mut i: usize = 0;
    assert(v@.skip(0) =~= v@);
    assert(out@ + bytes_of_values(v@) =~= bytes_of_values(v@));
    while v.len() - i >= 4
        invariant
            i <= v.len(),
            i % 4 == 0,
            forall|k: int| 0 <= k < v@.len() ==> #[trigger] v@[k] < 64,
            out@ + bytes_of_values(v@.skip(i as int)) == bytes_of_values(v@),
        decreases v.len() - i,
    {
        let ghost rest = v@.skip(i as int);
        let a = v[i];
        let b = v[i + 1];
        let c = v[i + 2];
        let d = v[i + 3];
        assert(rest[0] == a && rest[1] == b && rest[2] == c && rest[3] == d);
        assert(rest.skip(4) =~= v@.skip(i + 4));
        out.push(a * 4 + b / 16);
        out.push((b % 16) * 16 + c / 4);
        out.push((c % 4) * 64 + d);
        i = i + 4;
        assert(out@ + bytes_of_values(v@.skip(i as int)) =~= bytes_of_values(v@));
    }
    let ghost rest = v@.skip(i as int);
    let n = v.len() - i;
    if n == 3 {
        let a = v[i];
        let b = v[i + 1];
        let c = v[i + 2];
        assert(rest[0] == a && rest[1] == b && rest[2] == c);
        out.push(a * 4 + b / 16);
        out.push((b % 16) * 16 + c / 4);
    } else if n == 2 {
        let a = v[i];
        let b = v[i + 1];
        assert(rest[0] == a && rest[1] == b);
        out.push(a * 4 + b / 16);
    }
    assert(out@ =~= bytes_of_values(v@));
    out
}

/// Decode base64url leniently (the decoder of OIDC ID tokens): `=` is
/// ignored, `-`/`+` and `_`/`/` both accepted, leftover bits dropped. An
/// error names the first byte that is no base64 character (read as the
/// character of that code).
pub fn base64_url_decode(input: &str) -> (r: Result<Vec<u8>, String>)
    ensures
        match lenient_decode(utf8(input@)) {
            Ok(b) => r matches Ok(v) && v@ == b,
            Err(b) => r matches Err(m) && m@ == "Invalid base64 character: "@ + seq![b as char],
        },
{
    let bytes = input.as_bytes();
    let ghost all = bytes@;
    let mut vals: Vec<u8> = Vec::new();
    let mut i: usize = 0;
    while i < bytes.len()
        invariant
            i <= bytes.len(),
            bytes@ == all,
            all == utf8(input@),
            forall|k: int| 0 <= k < vals@.len() ==> #[trigger] vals@[k] < 64,
            lenient_values(all.take(i as int)) == Ok::<Seq<u8>, u8>(vals@),
        decreases bytes.len() - i,
    {
        let b = bytes[i];
        assert(all.take(i + 1).drop_last() =~= all.take(i as int));
        if b != 61 {
            match b64_value_exec(b) {
                Some(x) => {
                    vals.push(x);
                },
                None => {
                    proof {
                        lemma_lenient_error_stays(all, i as int + 1, b);
                    }
                    let mut m = chars_of("Invalid base64 character: ");
                    m.push(b as char);
                    return Err(string_of(&m));
                },
            }
        }
        i = i + 1;
    }
    assert(all.take(bytes.len() as int) =~= all);
    let out = bytes_of_values_exec(&vals);
    Ok(out)
}

// ---------------------------------------------------------------------------
// Base64url round trip
// ---------------------------------------------------------------------------

/// The 6-bit values that unpadded base64 writes for `b`.
pub open spec fn enc_values(b: Seq<u8>) -> Seq<u8>
    decreases b.len(),
{
    if b.len() == 0 {
        seq![]
    } else if b.len() == 1 {
        seq![(b[0] / 4) as u8, ((b[0] % 4) * 16) as u8]
    } else if b.len() == 2 {
        seq![(b[0] / 4) as u8, ((b[0] % 4) * 16 + b[1] / 16) as u8, ((b[1] % 16) * 4) as u8]
    } else {
        seq![
            (b[0] / 4) as u8,
            ((b[0] % 4) * 16 + b[1] / 16) as u8,
            ((b[1] % 16) * 4 + b[2] / 64) as u8,
            (b[2] % 64) as u8,
        ] + enc_values(b.skip(3))
    }
}

/// The URL-safe base64 characters of 6-bit values.
pub open spec fn url_digits(vs: Seq<u8>) -> Seq<char> {
    vs.map_values(|v: u8| b64_digit(v as int, true))
}

/// The bytes of the URL-safe base64 characters of 6-bit values.
pub open spec fn url_digit_bytes(vs: Seq<u8>) -> Seq<u8> {
    url_digits(vs).map_values(|c: char| c as u8)
}

/// The unpadded URL-safe encoding is the digits of [`enc_values`], each a
/// value below 64.
proof fn lemma_encode_is_digits(b: Seq<u8>)
    ensures
        b64_encode(b, true, false) == url_digits(enc_values(b)),
        forall|i: int| 0 <= i < enc_values(b).len() ==> #[trigger] enc_values(b)[i] < 64,
    decreases b.len(),
{
    if b.len() == 0 {
        assert(url_digits(enc_values(b)) =~= Seq::<char>::empty());
    } else if b.len() == 1 {
        assert(b64_encode(b, true, false) =~= url_digits(enc_values(b)));
    } else if b.len() == 2 {
        assert(b64_encode(b, true, false) =~= url_digits(enc_values(b)));
    } else {
        lemma_encode_is_digits(b.skip(3));
        let head = seq![
            (b[0] / 4) as u8,
            ((b[0] % 4) * 16 + b[1] / 16) as u8,
            ((b[1] % 16) * 4 + b[2] / 64) as u8,
            (b[2] % 64) as u8,
        ];
        assert(url_digits(head + enc_values(b.skip(3))) =~= url_digits(head) + url_digits(enc_values(b.skip(3))));
        assert(b64_encode(b, true, false) =~= url_digits(enc_values(b)));
        assert forall|i: int| 0 <= i < enc_values(b).len() implies #[trigger] enc_values(b)[i] < 64 by {
            if i >= 4 {
                assert(enc_values(b)[i] == enc_values(b.skip(3))[i - 4]);
            }
        }
    }
}

/// A URL-safe digit is ASCII and reads back as its value.
proof fn lemma_url_digit(v: u8)
    requires
        v < 64,
    ensures
        '\0' <= b64_digit(v as int, true) <= '\u{7f}',
        b64_value(b64_digit(v as int, true) as u8) == Some(v),
{
}

/// Reading the bytes of URL-safe digits gives their values back.
proof fn lemma_digits_read_back(vs: Seq<u8>)
    requires
        forall|i: int| 0 <= i < vs.len() ==> #[trigger] vs[i] < 64,
    ensures
        lenient_values(url_digit_bytes(vs)) == Ok::<Seq<u8>, u8>(vs),
    decreases vs.len(),
{
    let bytes = url_digit_bytes(vs);
    if vs.len() > 0 {
        let front = vs.drop_last();
        lemma_digits_read_back(front);
        assert(bytes.drop_last() =~= url_digit_bytes(front));
        lemma_url_digit(vs.last());
        assert(bytes.last() == b64_digit(vs.last() as int, true) as u8);
        assert(bytes.last() != 61);
        assert(b64_value(bytes.last()) == Some(vs.last()));
        assert(bytes.len() > 0);
        assert(lenient_values(bytes.drop_last()) == Ok::<Seq<u8>, u8>(front));
        assert(front.push(vs.last()) =~= vs);
        assert(lenient_values(bytes) == Ok::<Seq<u8>, u8>(front.push(vs.last())));
    } else {
        assert(bytes =~= Seq::<u8>::empty());
        assert(vs =~= Seq::<u8>::empty());
    }
}

/// Three bytes split into four 6-bit values and joined again are the same
/// bytes.
proof fn lemma_group_joins(x: u8, y: u8, z: u8)
    ensures
        ((x / 4) as u8 * 4 + ((x % 4) * 16 + y / 16) as u8 / 16) as u8 == x,
        ((((x % 4) * 16 + y / 16) as u8 % 16) * 16 + ((y % 16) * 4 + z / 64) as u8 / 4) as u8 == y,
        ((((y % 16) * 4 + z / 64) as u8 % 4) * 64 + (z % 64) as u8) as u8 == z,
{
    assert(((x / 4) as u8 * 4 + ((x % 4) * 16 + y / 16) as u8 / 16) as u8 == x) by (bit_vector);
    assert(((((x % 4) * 16 + y / 16) as u8 % 16) * 16 + ((y % 16) * 4 + z / 64) as u8 / 4) as u8 == y)
        by (bit_vector);
    assert(((((y % 16) * 4 + z / 64) as u8 % 4) * 64 + (z % 64) as u8) as u8 == z) by (bit_vector);
}

/// Joining the values of an encoding gives the bytes back.
proof fn lemma_values_join(b: Seq<u8>)
    ensures
        bytes_of_values(enc_values(b)) == b,
    decreases b.len(),
{
    if b.len() == 0 {
    } else if b.len() == 1 {
        let x = b[0];
        assert(((x / 4) as u8 * 4 + ((x % 4) * 16) as u8 / 16) as u8 == x) by (bit_vector);
        assert(bytes_of_values(enc_values(b)) =~= b);
    } else if b.len() == 2 {
        let x = b[0];
        let y = b[1];
        assert(((x / 4) as u8 * 4 + ((x % 4) * 16 + y / 16) as u8 / 16) as u8 == x) by (bit_vector);
        assert(((((x % 4) * 16 + y / 16) as u8 % 16) * 16 + ((y % 16) * 4) as u8 / 4) as u8 == y) by (bit_vector);
        assert(bytes_of_values(enc_values(b)) =~= b);
    } else {
        lemma_values_join(b.skip(3));
        lemma_group_joins(b[0], b[1], b[2]);
        let v = enc_values(b);
        assert(v.skip(4) =~= enc_values(b.skip(3)));
        assert(bytes_of_values(v) =~= b);
    }
}

/// Decoding undoes encoding: the lenient base64url decoder gives back the
/// bytes that the unpadded URL-safe encoder wrote.
pub proof fn lemma_base64_url_round_trip(b: Seq<u8>)
    ensures
        lenient_decode(utf8(b64_encode(b, true, false))) == Ok::<Seq<u8>, u8>(b),
{
    lemma_encode_is_digits(b);
    let vs = enc_values(b);
    let s = url_digits(vs);
    assert(vstd::utf8::is_ascii_chars(s)) by {
        assert forall|i: int| 0 <= i < s.len() implies '\0' <= #[trigger] s[i] <= '\u{7f}' by {
            lemma_url_digit(vs[i]);
        }
    }
    vstd::utf8::is_ascii_chars_encode_utf8(s);
    assert(utf8(s) =~= url_digit_bytes(vs));
    lemma_digits_read_back(vs);
    lemma_values_join(b);
}

/// Once a byte is refused, the whole input is refused with it.
proof fn lemma_lenient_error_stays(all: Seq<u8>, n: int, b: u8)
    requires
        0 <= n <= all.len(),
        lenient_values(all.take(n)) == Err::<Seq<u8>, u8>(b),
    ensures
        lenient_values(all) == Err::<Seq<u8>, u8>(b),
    decreases all.len() - n,
{
    if n < all.len() {
        assert(all.take(n + 1).drop_last() =~= all.take(n));
        lemma_lenient_error_stays(all, n + 1, b);
    } else {
        assert(all.take(n) =~= all);
    }
}

/// The payload of an ID token: its middle segment, decoded leniently. The
/// token must have exactly three `.`-separated segments.
pub fn decode_id_token_payload(id_token: &str) -> (r: Result<Vec<u8>, AppError>)
    ensures
        split_on(id_token@, '.').len() != 3 ==> (r matches Err(e) && e matches AppError::Internal(m)
            && m@ == "Invalid JWT format in id_token"@),
        split_on(id_token@, '.').len() == 3 ==> match lenient_decode(
            utf8(split_on(id_token@, '.')[1]),
        ) {
            Ok(b) => r matches Ok(v) && v@ == b,
            Err(x) => r matches Err(e) && e matches AppError::Internal(m) && m@
                == "Failed to decode JWT payload: "@ + "Invalid base64 character: "@ + seq![x as char],
        },
{
    let t = chars_of(id_token);
    let parts = split_chars(&t, '.');
    if parts.len() != 3 {
        return Err(AppError::Internal(string_from_str("Invalid JWT format in id_token")));
    }
    assert(views(parts@)[1] == parts@[1]@);
    let payload = string_of(&parts[1]);
    match base64_url_decode(payload.as_str()) {
        Ok(b) => Ok(b),
        Err(detail) => {
            let mut m = chars_of("Failed to decode JWT payload: ");
            extend_str(&mut m, detail.as_str());
            Err(AppError::Internal(string_of(&m)))
        },
    }
}

/// The form of the authorization-code exchange, in order; the client secret
/// only for confidential clients.
pub fn token_exchange_form(
    code: &str,
    client_id: &str,
    client_secret: Option<&str>,
    redirect_uri: &str,
    pkce_verifier: &str,
) -> (out: Vec<(String, String)>)
    ensures
        out@.len() == if client_secret is Some {
            6int
        } else {
            5int
        },
        out@[0].0@ == "grant_type"@ && out@[0].1@ == "authorization_code"@,
        out@[1].0@ == "code"@ && out@[1].1@ == code@,
        out@[2].0@ == "client_id"@ && out@[2].1@ == client_id@,
        out@[3].0@ == "redirect_uri"@ && out@[3].1@ == redirect_uri@,
        out@[4].0@ == "code_verifier"@ && out@[4].1@ == pkce_verifier@,
        client_secret matches Some(sec) ==> out@[5].0@ == "client_secret"@ && out@[5].1@ == sec@,
{
    let mut out: Vec<(String, String)> = Vec::new();
    out.push((string_from_str("grant_type"), string_from_str("authorization_code")));
    out.push((string_from_str("code"), string_from_str(code)));
    out.push((string_from_str("client_id"), string_from_str(client_id)));
    out.push((string_from_str("redirect_uri"), string_from_str(redirect_uri)));
    out.push((string_from_str("code_verifier"), string_from_str(pkce_verifier)));
    match client_secret {
        Some(sec) => {
            out.push((string_from_str("client_secret"), string_from_str(sec)));
        },
        None => {},
    }
    out
}

/// The username of a new SSO user: the preferred username, else the email,
/// else the subject.
pub fn sso_username(preferred_username: Option<&str>, email: Option<&str>, sub: &str) -> (out: String)
    ensures
        out@ == match preferred_username {
            Some(p) => p@,
            None => match email {
                Some(e) => e@,
                None => sub@,
            },
        },
{
    match preferred_username {
        Some(p) => string_from_str(p),
        None => match email {
            Some(e) => string_from_str(e),
            None => string_from_str(sub),
        },
    }
}

/// A numbered username, tried when the plain one is taken: the base followed
/// by the number.
pub fn numbered_username(base_username: &str, suffix: u32) -> (out: String)
    ensures
        out@ == base_username@ + decimal(suffix as int),
{
    let mut v = chars_of(base_username);
    extend_chars(&mut v, &decimal_i64(suffix as i64));
    string_of(&v)
}

/// When SSO auto-registration is off, an unknown account is refused.
pub fn check_auto_register(auto_register: bool) -> (r: Result<(), AppError>)
    ensures
        r is Ok <==> auto_register,
        r matches Err(e) ==> e matches AppError::Forbidden(m) && m@
            == "No linked account found and auto-registration is disabled"@,
{
    if !auto_register {
        return Err(
            AppError::Forbidden(
                string_from_str("No linked account found and auto-registration is disabled"),
            ),
        );
    }
    Ok(())
}

// ---------------------------------------------------------------------------
// Kobo sync
// ---------------------------------------------------------------------------

/// The base URL of the Kobo endpoints from the request's host (plain HTTP:
/// TLS is terminated by the proxy).
pub fn build_base_url(host: &str) -> (out: String)
    ensures
        out@ == "http://"@ + host@,
{
    let mut v = chars_of("http://");
    extend_str(&mut v, host);
    string_of(&v)
}

/// The Kobo entitlement id of a book.
pub fn entitlement_id(book_id: i64) -> (out: String)
    ensures
        out@ == "ironshelf-"@ + decimal(book_id as int),
{
    let mut v = chars_of("ironshelf-");
    extend_chars(&mut v, &decimal_i64(book_id));
    string_of(&v)
}

// ---------------------------------------------------------------------------
// Ironshelf Cloud
// ---------------------------------------------------------------------------

/// Where the cloud service is told of this server's new public address:
/// the service's URL without trailing slashes, then `/api/v1/servers/` and
/// the server's id.
pub fn cloud_server_update_url(cloud_service_url: &str, server_id: &str) -> (out: String)
    ensures
        out@ == trim_end_char(cloud_service_url@, '/') + "/api/v1/servers/"@ + server_id@,
{
    let mut v = trim_end_char_exec(&chars_of(cloud_service_url), '/');
    extend_str(&mut v, "/api/v1/servers/");
    extend_str(&mut v, server_id);
    string_of(&v)
}

/// Body of `POST /api/v1/cloud/claim`.
pub struct ClaimRequest {
    pub claim_token: String,
    pub cloud_service_url: Option<String>,
    pub server_id: Option<String>,
}

/// What a claim or unclaim answers.
pub struct ClaimResponse {
    pub claimed: bool,
    pub message: String,
}

/// Whether the server is claimed, and by which service.
pub struct ClaimStatusResponse {
    pub is_claimed: bool,
    pub cloud_service_url: Option<String>,
    pub server_id: Option<String>,
}

/// Body of `POST /api/v1/cloud/login`.
pub struct CloudLoginRequest {
    pub cloud_token: String,
}

/// What a cloud login answers.
pub struct CloudLoginResponse {
    pub user_id: String,
    pub username: String,
    pub is_owner: bool,
    pub session_id: String,
}

/// A claim token: trimmed, present, and 32 to 256 bytes long. `Ok` carries
/// the trimmed token.
pub fn validate_claim_token(request: &ClaimRequest) -> (r: Result<String, AppError>)
    ensures
        ({
            let t = crate::text::trim(request.claim_token@);
            if t.len() == 0 {
                r matches Err(e) && e matches AppError::BadRequest(m) && m@
                    == "claim_token is required"@
            } else if utf8(t).len() < 32 || utf8(t).len() > 256 {
                r matches Err(e) && e matches AppError::BadRequest(m) && m@
                    == "Invalid claim_token format"@
            } else {
                r matches Ok(v) && v@ == t
            }
        }),
{
    let t = crate::text::trim_str(request.claim_token.as_str());
    if t.len() == 0 {
        return Err(AppError::BadRequest(string_from_str("claim_token is required")));
    }
    let ts = string_of(&t);
    let n = ts.as_str().as_bytes().len();
    if n < 32 || n > 256 {
        return Err(AppError::BadRequest(string_from_str("Invalid claim_token format")));
    }
    Ok(ts)
}

/// An optional claim setting: stored trimmed, and only when not blank.
pub fn optional_claim_setting(value: &Option<String>) -> (r: Option<String>)
    ensures
        match crate::text::ostr(*value) {
            Some(v) => if crate::text::trim(v).len() > 0 {
                r matches Some(x) && x@ == crate::text::trim(v)
            } else {
                r is None
            },
            None => r is None,
        },
{
    match value {
        Some(v) => {
            let t = crate::text::trim_str(v.as_str());
            if t.len() > 0 {
                Some(string_of(&t))
            } else {
                None
            }
        },
        None => None,
    }
}

/// The local account name of a cloud user.
pub fn cloud_username(username: &str) -> (out: String)
    ensures
        out@ == "cloud_"@ + username@,
{
    let mut v = chars_of("cloud_");
    extend_str(&mut v, username);
    string_of(&v)
}

/// The `Set-Cookie` value of a cloud session.
pub fn cloud_session_cookie(session_id: &str, tls_enabled: bool) -> (out: String)
    ensures
        out@ == "ironshelf_session="@ + session_id@ + "; Path=/; HttpOnly; SameSite=Lax; Max-Age=604800"@
            + if tls_enabled {
            "; Secure"@
        } else {
            ""@
        },
{
    let mut v = chars_of("ironshelf_session=");
    extend_str(&mut v, session_id);
    extend_str(&mut v, "; Path=/; HttpOnly; SameSite=Lax; Max-Age=604800");
    if tls_enabled {
        extend_str(&mut v, "; Secure");
    } else {
        extend_str(&mut v, "");
    }
    string_of(&v)
}

/// A base64url text made standard: `-` and `_` become `+` and `/`, and `=`
/// padding is added for a length of 2 or 3 modulo 4 (in bytes).
pub open spec fn standard_form(input: Seq<char>) -> Seq<char> {
    let s = input.map_values(|c: char| if c == '-' { '+' } else if c == '_' { '/' } else { c });
    if utf8(s).len() % 4 == 2 {
        s + "=="@
    } else if utf8(s).len() % 4 == 3 {
        s + "="@
    } else {
        s
    }
}

/// Decode a base64url text (the decoder of cloud tokens): made standard, it
/// must be a canonical padded standard encoding.
pub fn cloud_base64_url_decode(input: &str) -> (r: Option<Vec<u8>>)
    ensures
        match r {
            Some(b) => b64_encode(b@, false, true) == standard_form(input@),
            None => forall|b: Seq<u8>| b64_encode(b, false, true) != standard_form(input@),
        },
{
    let c = chars_of(input);
    let mut s: Vec<char> = Vec::new();
    let mut i: usize = 0;
    while i < c.len()
        invariant
            i <= c.len(),
            s@ == c@.take(i as int).map_values(
                |c: char| if c == '-' { '+' } else if c == '_' { '/' } else { c },
            ),
        decreases c.len() - i,
    {
        let x = c[i];
        if x == '-' {
            s.push('+');
        } else if x == '_' {
            s.push('/');
        } else {
            s.push(x);
        }
        i = i + 1;
        assert(s@ =~= c@.take(i as int).map_values(
            |c: char| if c == '-' { '+' } else if c == '_' { '/' } else { c },
        ));
    }
    assert(c@.take(c.len() as int) =~= c@);
    let st = string_of(&s);
    let n = st.as_str().as_bytes().len();
    let mut padded = s;
    if n % 4 == 2 {
        extend_str(&mut padded, "==");
    } else if n % 4 == 3 {
        extend_str(&mut padded, "=");
    }
    let p = string_of(&padded);
    b64_standard_decode(p.as_str())
}

/// The UTF-8 text of some bytes.
#[verifier::external_body]
fn utf8_text(bytes: Vec<u8>) -> (r: Option<String>)
    ensures
        match r {
            Some(s) => utf8(s@) == bytes@,
            None => forall|s: Seq<char>| utf8(s) != bytes@,
        },
{
    String::from_utf8(bytes).ok()
}

/// Why a cloud token is refused before its claims are read.
pub open spec fn cloud_token_check(token: Seq<char>, claim_token: Seq<char>) -> Option<Seq<char>> {
    let parts = split_on(token, '.');
    if parts.len() != 3 {
        Some("Invalid token format"@)
    } else if !(exists|sig: Seq<u8>| b64_encode(sig, false, true) == standard_form(parts[2])) {
        Some("Invalid signature encoding"@)
    } else if !(exists|sig: Seq<u8>|
        b64_encode(sig, false, true) == standard_form(parts[2]) && sig == hmac_sha256(
            utf8(claim_token),
            utf8(parts[0] + seq!['.'] + parts[1]),
        )) {
        Some("Invalid token signature"@)
    } else {
        None
    }
}

/// Check a cloud access token (HS256 JWT) against the server's claim token,
/// and return the text of its payload: the signature must be the
/// HMAC-SHA256, under the claim token, of `HEADER.PAYLOAD`; the payload must
/// decode to UTF-8 text.
pub fn verify_cloud_token_payload(token: &str, claim_token: &str) -> (r: Result<String, String>)
    ensures
        match cloud_token_check(token@, claim_token@) {
            Some(m) => r matches Err(x) && x@ == m,
            None => match r {
                Ok(p) => b64_encode(utf8(p@), false, true) == standard_form(
                    split_on(token@, '.')[1],
                ),
                Err(x) => x@ == "Invalid payload encoding"@,
            },
        },
{
    let t = chars_of(token);
    let parts = split_chars(&t, '.');
    if parts.len() != 3 {
        return Err(string_from_str("Invalid token format"));
    }
    assert(views(parts@)[0] == parts@[0]@);
    assert(views(parts@)[1] == parts@[1]@);
    assert(views(parts@)[2] == parts@[2]@);
    let mut signed = crate::text::slice_chars(&parts[0], 0, parts[0].len());
    signed.push('.');
    extend_chars(&mut signed, &parts[1]);
    assert(parts@[0]@.subrange(0, parts@[0]@.len() as int) =~= parts@[0]@);
    assert(signed@ =~= parts@[0]@ + seq!['.'] + parts@[1]@);
    let signed_text = string_of(&signed);
    let sig_text = string_of(&parts[2]);
    let sig = match cloud_base64_url_decode(sig_text.as_str()) {
        Some(b) => b,
        None => {
            return Err(string_from_str("Invalid signature encoding"));
        },
    };
    proof {
        crate::crypto::lemma_b64_injective(sig@, sig@, false, true);
    }
    let key_bytes = claim_token.as_bytes();
    let msg_bytes = signed_text.as_str().as_bytes();
    assert(key_bytes@ == utf8(claim_token@));
    assert(msg_bytes@ == utf8(parts@[0]@ + seq!['.'] + parts@[1]@));
    if !hmac_sha256_verify(key_bytes, msg_bytes, sig.as_slice()) {
        proof {
            assert forall|s2: Seq<u8>|
                b64_encode(s2, false, true) == standard_form(parts@[2]@) implies s2 != hmac_sha256(
                utf8(claim_token@),
                utf8(parts@[0]@ + seq!['.'] + parts@[1]@),
            ) by {
                crate::crypto::lemma_b64_injective(s2, sig@, false, true);
            }
        }
        return Err(string_from_str("Invalid token signature"));
    }
    let payload_text = string_of(&parts[1]);
    match cloud_base64_url_decode(payload_text.as_str()) {
        None => Err(string_from_str("Invalid payload encoding")),
        Some(b) => match utf8_text(b) {
            Some(s) => Ok(s),
            None => Err(string_from_str("Invalid payload encoding")),
        },
    }
}

/// A token whose expiry has passed is refused.
pub fn check_cloud_token_expiry(now: i64, expiration: i64) -> (r: Result<(), String>)
    ensures
        r is Ok <==> now <= expiration,
        r matches Err(m) ==> m@ == "Token expired"@,
{
    if now > expiration {
        return Err(string_from_str("Token expired"));
    }
    Ok(())
}

} // verus!
