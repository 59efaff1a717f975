//! Short-lived, media-only scoped tokens.
//!
//! A media token encodes `{user_id}.{exp}` signed with an instance-local
//! HMAC-SHA256 secret: `{user_id}.{exp_unix}.{base64url(sig)}`. It is valid
//! for `MEDIA_TOKEN_TTL_SECS` and only accepted on media routes.

use vstd::prelude::*;
use crate::crypto::{b64_encode, b64_url_nopad_decode, b64_url_nopad_encode, hmac_sha256, hmac_sha256_tag, hmac_sha256_verify};
use crate::text::{
    chars_of, decimal, decimal_i64, extend_chars, extend_str, is_digit, parse_i64,
    parse_in_range, rfind, rfind_chars, slice_chars, split_chars, split_on, starts_with,
    starts_with_str, string_of, views,
};
use vstd::string::StringSliceAdditionalSpecFns;

verus! {

/// Token lifetime in seconds (~15 minutes).
pub const MEDIA_TOKEN_TTL_SECS: i64 = 900;

/// Whether a query token looks like a media token rather than a session id or
/// `irs_` API key: three dot-separated non-empty parts, the middle one all
/// ASCII digits.
pub open spec fn spec_looks_like_media_token(token: Seq<char>) -> bool {
    let parts = split_on(token, '.');
    &&& !starts_with(token, "irs_"@)
    &&& parts.len() == 3
    &&& parts[0].len() > 0
    &&& parts[1].len() > 0
    &&& forall|i: int| 0 <= i < parts[1].len() ==> is_digit(#[trigger] parts[1][i])
    &&& parts[2].len() > 0
}

/// Whether `token` looks like a media token.
pub fn looks_like_media_token(token: &str) -> (r: bool)
    ensures
        r == spec_looks_like_media_token(token@),
{
    let t = chars_of(token);
    if starts_with_str(&t, "irs_") {
        return false;
    }
    let parts = split_chars(&t, '.');
    if parts.len() != 3 {
        return false;
    }
    assert(parts@[0]@ == split_on(token@, '.')[0]);
    assert(parts@[1]@ == split_on(token@, '.')[1]);
    assert(parts@[2]@ == split_on(token@, '.')[2]);
    if parts[0].len() == 0 || parts[1].len() == 0 || parts[2].len() == 0 {
        return false;
    }
    let mid = &parts[1];
    let ghost p1 = split_on(token@, '.')[1];
    assert(mid@ == p1);
    let mut i: usize = 0;
    while i < mid.len()
        invariant
            i <= mid.len(),
            mid@ == p1,
            spec_looks_like_media_token(token@) == (forall|j: int|
                0 <= j < p1.len() ==> is_digit(#[trigger] p1[j])),
            forall|j: int| 0 <= j < i ==> is_digit(#[trigger] mid@[j]),
        decreases mid.len() - i,
    {
        if !('0' <= mid[i] && mid[i] <= '9') {
            assert(!is_digit(p1[i as int]));
            return false;
        }
        i = i + 1;
    }
    true
}

/// The signed message of a token for `user_id` expiring at `exp`.
pub open spec fn message_text(user_id: Seq<char>, exp_text: Seq<char>) -> Seq<char> {
    user_id + seq!['.'] + exp_text
}

/// The UTF-8 bytes of a text.
pub open spec fn utf8(s: Seq<char>) -> Seq<u8> {
    vstd::utf8::encode_utf8(s)
}

/// The signature of `message` under `secret`: base64url (no padding) of the
/// HMAC-SHA256 tag over the UTF-8 bytes.
pub open spec fn signature_text(secret: Seq<char>, message: Seq<char>) -> Seq<char> {
    b64_encode(hmac_sha256(utf8(secret), utf8(message)), true, false)
}

/// The token minted for `user_id` at time `now` under `secret`.
pub open spec fn minted_token(secret: Seq<char>, user_id: Seq<char>, now: int) -> Seq<char> {
    let message = message_text(user_id, decimal(now + MEDIA_TOKEN_TTL_SECS));
    message + seq!['.'] + signature_text(secret, message)
}

/// The UTF-8 bytes of a character vector, through a `String`.
fn utf8_bytes(chars: &Vec<char>) -> (out: Vec<u8>)
    ensures
        out@ == utf8(chars@),
{
    let s = string_of(chars);
    let b = s.as_str().as_bytes();
    crate::text::bytes_to_vec(b)
}

/// Compute the base64url(no-pad) HMAC-SHA256 signature over `message` with `secret`.
pub fn sign(secret: &str, message: &str) -> (out: String)
    ensures
        out@ == signature_text(secret@, message@),
{
    let tag = hmac_sha256_tag(secret.as_bytes(), message.as_bytes());
    b64_url_nopad_encode(tag.as_slice())
}

/// Mint a media token for `user_id` at time `now` (Unix seconds), valid until
/// `now + MEDIA_TOKEN_TTL_SECS`.
pub fn mint_at(secret: &str, user_id: &str, now: i64) -> (token: String)
    requires
        now <= i64::MAX - MEDIA_TOKEN_TTL_SECS,
    ensures
        token@ == minted_token(secret@, user_id@, now as int),
{
    let exp = now + MEDIA_TOKEN_TTL_SECS;
    let mut message = chars_of(user_id);
    message.push('.');
    let exp_text = decimal_i64(exp);
    extend_chars(&mut message, &exp_text);
    let message_string = string_of(&message);
    let signature = sign(secret, message_string.as_str());
    let mut token = message;
    token.push('.');
    extend_str(&mut token, signature.as_str());
    assert(exp_text@ == decimal(now + MEDIA_TOKEN_TTL_SECS));
    assert(message@ =~= message_text(user_id@, decimal(now + MEDIA_TOKEN_TTL_SECS)));
    assert(signature@ == signature_text(secret@, message@));
    assert(token@ =~= message@ + seq!['.'] + signature@);
    assert(token@ =~= minted_token(secret@, user_id@, now as int));
    string_of(&token)
}

/// The three parts of a token, split from the right: `(user_id, exp_text,
/// signature_text)`; `None` when fewer than two dots are present.
pub open spec fn token_parts(token: Seq<char>) -> Option<(Seq<char>, Seq<char>, Seq<char>)> {
    match rfind(token, seq!['.']) {
        Some(i) => {
            let rest = token.take(i as int);
            let sig = token.skip(i as int + 1);
            match rfind(rest, seq!['.']) {
                Some(j) => Some((rest.take(j as int), rest.skip(j as int + 1), sig)),
                None => None,
            }
        },
        None => None,
    }
}

/// The user a media token authenticates at time `now` under `secret`: the
/// token splits from the right into `user_id . exp . sig`, `user_id` is not
/// empty, `exp` parses as an `i64` not earlier than `now`, `sig` is a
/// canonical base64url text, and its bytes are the HMAC-SHA256 tag of
/// `user_id.exp` under the secret.
pub open spec fn spec_token_user(token: Seq<char>, secret: Seq<char>, now: int) -> Option<Seq<char>> {
    match token_parts(token) {
        Some((user_id, exp_text, sig)) => {
            match parse_in_range(exp_text, true, i64::MIN as int, i64::MAX as int) {
                Some(exp) => if user_id.len() > 0 && now <= exp && sig == signature_text(
                    secret,
                    message_text(user_id, exp_text),
                ) {
                    Some(user_id)
                } else {
                    None
                },
                None => None,
            }
        },
        None => None,
    }
}

/// Check a media token at time `now` (Unix seconds) against the signing
/// `secret`; returns the user id it was minted for.
pub fn verify_at(token: &str, secret: &str, now: i64) -> (r: Option<String>)
    ensures
        match r {
            Some(u) => spec_token_user(token@, secret@, now as int) == Some(u@),
            None => spec_token_user(token@, secret@, now as int) is None,
        },
{
    let t = chars_of(token);
    let mut dot: Vec<char> = Vec::new();
    dot.push('.');
    assert(dot@ =~= seq!['.']);
    let i = match rfind_chars(&t, &dot) {
        Some(i) => i,
        None => {
            return None;
        },
    };
    proof {
        crate::text::lemma_rfind(t@, seq!['.']);
        assert(seq!['.'].len() == 1);
        assert(crate::text::matches_at(t@, seq!['.'], i as int));
    }
    assert(i < t.len());
    let rest = slice_chars(&t, 0, i);
    let sig = slice_chars(&t, i + 1, t.len());
    assert(rest@ =~= t@.take(i as int));
    assert(sig@ =~= t@.skip(i + 1));
    let j = match rfind_chars(&rest, &dot) {
        Some(j) => j,
        None => {
            return None;
        },
    };
    proof {
        crate::text::lemma_rfind(rest@, seq!['.']);
        assert(crate::text::matches_at(rest@, seq!['.'], j as int));
    }
    assert(j < rest.len());
    let user_id = slice_chars(&rest, 0, j);
    let exp_text = slice_chars(&rest, j + 1, rest.len());
    assert(user_id@ =~= rest@.take(j as int));
    assert(exp_text@ =~= rest@.skip(j + 1));
    if user_id.len() == 0 {
        return None;
    }
    let exp = match parse_i64(&exp_text) {
        Some(e) => e,
        None => {
            return None;
        },
    };
    if now > exp {
        return None;
    }
    let sig_string = string_of(&sig);
    let provided = match b64_url_nopad_decode(sig_string.as_str()) {
        Some(b) => b,
        None => {
            return None;
        },
    };
    let mut message = user_id.clone();
    message.push('.');
    extend_chars(&mut message, &exp_text);
    assert(message@ =~= message_text(user_id@, exp_text@));
    let key = utf8_bytes(&chars_of(secret));
    let msg_bytes = utf8_bytes(&message);
    if !hmac_sha256_verify(key.as_slice(), msg_bytes.as_slice(), provided.as_slice()) {
        proof {
            crate::crypto::lemma_b64_injective(provided@, hmac_sha256(utf8(secret@), utf8(message@)), true, false);
        }
        return None;
    }
    Some(string_of(&user_id))
}


/// A position-wise description of `rfind` for a single character.
proof fn lemma_rfind_after_last(h: Seq<char>, i: int)
    requires
        0 <= i < h.len(),
        h[i] == '.',
        forall|j: int| i < j < h.len() ==> h[j] != '.',
    ensures
        rfind(h, seq!['.']) == Some(i as nat),
{
    let n = seq!['.'];
    assert(n.len() == 1);
    assert(h.subrange(i, i + 1) =~= n);
    assert forall|j: int| i < j implies !crate::text::matches_at(h, n, j) by {
        if crate::text::matches_at(h, n, j) {
            assert(h.subrange(j, j + 1)[0] == h[j]);
        }
    }
    crate::text::lemma_rfind(h, n);
    assert(crate::text::matches_at(h, n, i));
    match rfind(h, n) {
        Some(i2) => {
            if (i2 as int) > i {
                assert(!crate::text::matches_at(h, n, i2 as int));
            }
        },
        None => {},
    }
}

/// Base64 text never contains a dot.
proof fn lemma_b64_no_dot(b: Seq<u8>)
    ensures
        !b64_encode(b, true, false).contains('.'),
    decreases b.len(),
{
    let e = b64_encode(b, true, false);
    if b.len() == 0 {
        return;
    }
    if b.len() >= 3 {
        lemma_b64_no_dot(b.skip(3));
    }
    assert forall|k: int| 0 <= k < e.len() implies e[k] != '.' by {
        if k < 4 || b.len() < 3 {
            let v: int = if k == 0 {
                (b[0] as int) / 4
            } else if k == 1 {
                if b.len() == 1 {
                    ((b[0] as int) % 4) * 16
                } else {
                    ((b[0] as int) % 4) * 16 + (b[1] as int) / 16
                }
            } else if k == 2 {
                if b.len() == 2 {
                    ((b[1] as int) % 16) * 4
                } else {
                    ((b[1] as int) % 16) * 4 + (b[2] as int) / 64
                }
            } else {
                (b[2] as int) % 64
            };
            assert(e[k] == crate::crypto::b64_digit(v, true));
            crate::crypto::lemma_b64_digit_is_not_dot(v);
        } else {
            assert(e[k] == b64_encode(b.skip(3), true, false)[k - 4]);
        }
    }
}

/// A freshly minted token names its user until it expires: for a non-empty
/// user id, the token minted at `now` authenticates that user at every time
/// up to `now + MEDIA_TOKEN_TTL_SECS`, and nobody afterwards.
pub proof fn lemma_minted_token_verifies(secret: Seq<char>, user_id: Seq<char>, now: int, later: int)
    requires
        user_id.len() > 0,
        i64::MIN <= now + MEDIA_TOKEN_TTL_SECS <= i64::MAX,
    ensures
        later <= now + MEDIA_TOKEN_TTL_SECS ==> spec_token_user(minted_token(secret, user_id, now), secret, later)
            == Some(user_id),
        later > now + MEDIA_TOKEN_TTL_SECS ==> spec_token_user(minted_token(secret, user_id, now), secret, later)
            is None,
{
    let exp = now + MEDIA_TOKEN_TTL_SECS;
    let et = decimal(exp);
    let message = message_text(user_id, et);
    let sig = signature_text(secret, message);
    let token = minted_token(secret, user_id, now);
    crate::text::lemma_parse_decimal(exp);
    lemma_b64_no_dot(hmac_sha256(utf8(secret), utf8(message)));
    let i = message.len() as int;
    assert(token == message + seq!['.'] + sig);
    assert(token[i] == '.');
    assert forall|j: int| i < j < token.len() implies token[j] != '.' by {
        assert(token[j] == sig[j - i - 1]);
    }
    lemma_rfind_after_last(token, i);
    assert(token.take(i) =~= message);
    assert(token.skip(i + 1) =~= sig);
    let k = user_id.len() as int;
    assert(message[k] == '.');
    assert forall|j: int| k < j < message.len() implies message[j] != '.' by {
        assert(message[j] == et[j - k - 1]);
    }
    lemma_rfind_after_last(message, k);
    assert(message.take(k) =~= user_id);
    assert(message.skip(k + 1) =~= et);
}

} // verus!
