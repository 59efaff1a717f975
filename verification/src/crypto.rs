//! Hashing, message authentication and the text encodings (hex, base64) that
//! tokens and cookies use.
//!
//! SHA-256 and HMAC-SHA256 come from the `sha2` and `hmac` crates; their
//! results are named, not restated. Base64 and hex are specified here in full.

use vstd::prelude::*;
use base64::Engine;
use hmac::Mac;
use sha2::Digest;

verus! {

// ---------------------------------------------------------------------------
// SHA-256 and HMAC-SHA256
// ---------------------------------------------------------------------------

/// The SHA-256 digest of `data`.
pub uninterp spec fn sha256(data: Seq<u8>) -> Seq<u8>;

/// The HMAC-SHA256 tag of `msg` under `key`.
pub uninterp spec fn hmac_sha256(key: Seq<u8>, msg: Seq<u8>) -> Seq<u8>;

/// `sha2::Sha256::digest`: the 32-byte SHA-256 digest of `data`.
#[verifier::external_body]
pub(crate) fn sha256_digest(data: &[u8]) -> (out: Vec<u8>)
    ensures
        out@ == sha256(data@),
        out@.len() == 32,
{
    sha2::Sha256::digest(data).to_vec()
}

/// `Hmac<Sha256>` over `msg` with `key` (any key length is accepted): the
/// 32-byte tag.
#[verifier::external_body]
pub(crate) fn hmac_sha256_tag(key: &[u8], msg: &[u8]) -> (out: Vec<u8>)
    ensures
        out@ == hmac_sha256(key@, msg@),
        out@.len() == 32,
{
    let mut mac = <hmac::Hmac<sha2::Sha256> as Mac>::new_from_slice(key).expect("HMAC accepts any key length");
    mac.update(msg);
    mac.finalize().into_bytes().to_vec()
}

/// `Mac::verify_slice` for `Hmac<Sha256>`: whether `tag` is exactly the tag of
/// `msg` under `key` (compared in constant time; a tag of another length is
/// rejected).
#[verifier::external_body]
pub(crate) fn hmac_sha256_verify(key: &[u8], msg: &[u8], tag: &[u8]) -> (r: bool)
    ensures
        r == (tag@ == hmac_sha256(key@, msg@)),
{
    let mut mac = <hmac::Hmac<sha2::Sha256> as Mac>::new_from_slice(key).expect("HMAC accepts any key length");
    mac.update(msg);
    mac.verify_slice(tag).is_ok()
}

// ---------------------------------------------------------------------------
// Hex
// ---------------------------------------------------------------------------

/// The lowercase hex digit of a value below 16.
pub open spec fn hex_digit(v: int) -> char {
    if v < 10 {
        (48 + v) as char
    } else {
        (87 + v) as char
    }
}

/// Lowercase hex rendering of bytes, two digits per byte (`hex::encode`,
/// `format!("{:x}")` of a digest).
pub open spec fn hex_lower(b: Seq<u8>) -> Seq<char>
    decreases b.len(),
{
    if b.len() == 0 {
        Seq::<char>::empty()
    } else {
        seq![hex_digit((b[0] as int) / 16), hex_digit((b[0] as int) % 16)] + hex_lower(b.drop_first())
    }
}

/// Hex doubles the length.
pub proof fn lemma_hex_len(b: Seq<u8>)
    ensures
        hex_lower(b).len() == 2 * b.len(),
    decreases b.len(),
{
    if b.len() > 0 {
        lemma_hex_len(b.drop_first());
    }
}

/// The lowercase hex digit character of `v`.
fn hex_digit_exec(v: u8) -> (c: char)
    requires
        v < 16,
    ensures
        c == hex_digit(v as int),
{
    if v < 10 {
        crate::text::char_from_ascii((48 + v) as u32)
    } else {
        crate::text::char_from_ascii((87 + v) as u32)
    }
}

/// Lowercase hex of `b`.
pub fn hex_encode(b: &[u8]) -> (out: String)
    ensures
        out@ == hex_lower(b@),
{
    let mut out: Vec<char> = Vec::new();
    let mut i: usize = 0;
    assert(b@.skip(0) =~= b@);
    while i < b.len()
        invariant
            i <= b.len(),
            out@ + hex_lower(b@.skip(i as int)) == hex_lower(b@),
        decreases b.len() - i,
    {
        let x = b[i];
        assert(b@.skip(i as int).drop_first() =~= b@.skip(i + 1));
        out.push(hex_digit_exec(x / 16));
        out.push(hex_digit_exec(x % 16));
        i = i + 1;
        assert(out@ + hex_lower(b@.skip(i as int)) =~= hex_lower(b@));
    }
    assert(hex_lower(b@.skip(i as int)) =~= Seq::<char>::empty());
    assert(out@ =~= hex_lower(b@));
    crate::text::string_of(&out)
}

// ---------------------------------------------------------------------------
// Base64
// ---------------------------------------------------------------------------

/// The base64 character of a 6-bit value; `url` selects the URL-safe
/// alphabet (`-`, `_` in place of `+`, `/`).
pub open spec fn b64_digit(v: int, url: bool) -> char {
    if v < 26 {
        (65 + v) as char
    } else if v < 52 {
        (71 + v) as char
    } else if v < 62 {
        (v - 4) as char
    } else if v == 62 {
        if url {
            '-'
        } else {
            '+'
        }
    } else {
        if url {
            '_'
        } else {
            '/'
        }
    }
}

/// Base64 encoding of `b` (RFC 4648), with or without `=` padding.
pub open spec fn b64_encode(b: Seq<u8>, url: bool, pad: bool) -> Seq<char>
    decreases b.len(),
{
    if b.len() == 0 {
        Seq::<char>::empty()
    } else if b.len() == 1 {
        seq![b64_digit((b[0] as int) / 4, url), b64_digit(((b[0] as int) % 4) * 16, url)] + (if pad {
            seq!['=', '=']
        } else {
            Seq::<char>::empty()
        })
    } else if b.len() == 2 {
        seq![
            b64_digit((b[0] as int) / 4, url),
            b64_digit(((b[0] as int) % 4) * 16 + (b[1] as int) / 16, url),
            b64_digit(((b[1] as int) % 16) * 4, url),
        ] + (if pad {
            seq!['=']
        } else {
            Seq::<char>::empty()
        })
    } else {
        seq![
            b64_digit((b[0] as int) / 4, url),
            b64_digit(((b[0] as int) % 4) * 16 + (b[1] as int) / 16, url),
            b64_digit(((b[1] as int) % 16) * 4 + (b[2] as int) / 64, url),
            b64_digit((b[2] as int) % 64, url),
        ] + b64_encode(b.skip(3), url, pad)
    }
}

/// The base64 character of a 6-bit value (executable).
fn b64_digit_exec(v: u8, url: bool) -> (c: char)
    requires
        v < 64,
    ensures
        c == b64_digit(v as int, url),
{
    if v < 26 {
        crate::text::char_from_ascii((65 + v) as u32)
    } else if v < 52 {
        crate::text::char_from_ascii((71 + v) as u32)
    } else if v < 62 {
        crate::text::char_from_ascii((v - 4) as u32)
    } else if v == 62 {
        if url {
            '-'
        } else {
            '+'
        }
    } else {
        if url {
            '_'
        } else {
            '/'
        }
    }
}

/// Base64 encoding of `input` in the given alphabet and padding mode.
pub fn b64_encode_exec(input: &[u8], url: bool, pad: bool) -> (out: Vec<char>)
    ensures
        out@ == b64_encode(input@, url, pad),
{
    let mut out: Vec<char> = Vec::new();
    let mut i: usize = 0;
    assert(input@.skip(0) =~= input@);
    while i < input.len()
        invariant
            i <= input.len(),
            out@ + b64_encode(input@.skip(i as int), url, pad) == b64_encode(input@, url, pad),
        decreases input.len() - i,
    {
        let ghost rest = input@.skip(i as int);
        let n = input.len() - i;
        let b0 = input[i];
        if n == 1 {
            out.push(b64_digit_exec(b0 / 4, url));
            out.push(b64_digit_exec((b0 % 4) * 16, url));
            if pad {
                out.push('=');
                out.push('=');
            }
            i = i + 1;
            assert(out@ =~= b64_encode(input@, url, pad));
            assert(b64_encode(input@.skip(i as int), url, pad) =~= Seq::<char>::empty());
        } else if n == 2 {
            let b1 = input[i + 1];
            out.push(b64_digit_exec(b0 / 4, url));
            out.push(b64_digit_exec((b0 % 4) * 16 + b1 / 16, url));
            out.push(b64_digit_exec((b1 % 16) * 4, url));
            if pad {
                out.push('=');
            }
            i = i + 2;
            assert(out@ =~= b64_encode(input@, url, pad));
            assert(b64_encode(input@.skip(i as int), url, pad) =~= Seq::<char>::empty());
        } else {
            let b1 = input[i + 1];
            let b2 = input[i + 2];
            out.push(b64_digit_exec(b0 / 4, url));
            out.push(b64_digit_exec((b0 % 4) * 16 + b1 / 16, url));
            out.push(b64_digit_exec((b1 % 16) * 4 + b2 / 64, url));
            out.push(b64_digit_exec(b2 % 64, url));
            assert(rest.skip(3) =~= input@.skip(i + 3));
            i = i + 3;
            assert(out@ + b64_encode(input@.skip(i as int), url, pad) =~= b64_encode(
                input@,
                url,
                pad,
            ));
        }
    }
    assert(b64_encode(input@.skip(i as int), url, pad) =~= Seq::<char>::empty());
    assert(out@ =~= b64_encode(input@, url, pad));
    out
}

/// `base64::engine::general_purpose::URL_SAFE_NO_PAD.encode`: URL-safe base64
/// without padding.
#[verifier::external_body]
pub(crate) fn b64_url_nopad_encode(data: &[u8]) -> (out: String)
    ensures
        out@ == b64_encode(data@, true, false),
{
    base64::engine::general_purpose::URL_SAFE_NO_PAD.encode(data)
}

/// `base64::engine::general_purpose::URL_SAFE_NO_PAD.decode`: the decoder
/// accepts exactly the canonical unpadded URL-safe encodings (trailing bits
/// must be zero, padding is refused), and returns the bytes they encode.
#[verifier::external_body]
pub(crate) fn b64_url_nopad_decode(text: &str) -> (r: Option<Vec<u8>>)
    ensures
        match r {
            Some(b) => b64_encode(b@, true, false) == text@,
            None => forall|b: Seq<u8>| b64_encode(b, true, false) != text@,
        },
{
    base64::engine::general_purpose::URL_SAFE_NO_PAD.decode(text).ok()
}

/// `base64::engine::general_purpose::STANDARD.decode`: the decoder accepts
/// exactly the canonical padded standard encodings and returns the bytes they
/// encode.
#[verifier::external_body]
pub(crate) fn b64_standard_decode(text: &str) -> (r: Option<Vec<u8>>)
    ensures
        match r {
            Some(b) => b64_encode(b@, false, true) == text@,
            None => forall|b: Seq<u8>| b64_encode(b, false, true) != text@,
        },
{
    base64::engine::general_purpose::STANDARD.decode(text).ok()
}


/// Distinct 6-bit values have distinct base64 characters, and none is `=`.
pub proof fn lemma_b64_digit_injective(v: int, w: int, url: bool)
    requires
        0 <= v < 64,
        0 <= w < 64,
    ensures
        b64_digit(v, url) == b64_digit(w, url) ==> v == w,
        b64_digit(v, url) != '=',
{
    let cv = b64_digit(v, url);
    let cw = b64_digit(w, url);
    assert(cv as u32 == (if v < 26 { 65 + v } else if v < 52 { 71 + v } else if v < 62 { v - 4 } else if v == 62 { if url { 45int } else { 43 } } else { if url { 95int } else { 47 } }));
    assert(cw as u32 == (if w < 26 { 65 + w } else if w < 52 { 71 + w } else if w < 62 { w - 4 } else if w == 62 { if url { 45int } else { 43 } } else { if url { 95int } else { 47 } }));
}

/// Splitting `16 * x + y` with `y < 16` is unique.
proof fn lemma_split_unique(x: int, y: int, x2: int, y2: int, k: int)
    requires
        k > 0,
        0 <= y < k,
        0 <= y2 < k,
        x * k + y == x2 * k + y2,
    ensures
        x == x2,
        y == y2,
{
    assert(x == x2) by (nonlinear_arith)
        requires
            k > 0,
            0 <= y < k,
            0 <= y2 < k,
            x * k + y == x2 * k + y2,
    ;
}

/// Base64 encoding is injective: equal encodings come from equal bytes.
pub proof fn lemma_b64_injective(a: Seq<u8>, b: Seq<u8>, url: bool, pad: bool)
    ensures
        b64_encode(a, url, pad) == b64_encode(b, url, pad) ==> a == b,
    decreases a.len(),
{
    let ea = b64_encode(a, url, pad);
    let eb = b64_encode(b, url, pad);
    if ea != eb {
        return;
    }
    lemma_b64_len(a, url, pad);
    lemma_b64_len(b, url, pad);
    if a.len() == 0 || b.len() == 0 {
        return;
    }
    let a0 = a[0] as int;
    let b0 = b[0] as int;
    assert(ea[0] == b64_digit(a0 / 4, url));
    assert(eb[0] == b64_digit(b0 / 4, url));
    lemma_b64_digit_injective(a0 / 4, b0 / 4, url);
    if a.len() >= 3 && b.len() >= 3 {
        let (a1, a2, b1, b2) = (a[1] as int, a[2] as int, b[1] as int, b[2] as int);
        assert(ea[1] == b64_digit((a0 % 4) * 16 + a1 / 16, url));
        assert(eb[1] == b64_digit((b0 % 4) * 16 + b1 / 16, url));
        assert(ea[2] == b64_digit((a1 % 16) * 4 + a2 / 64, url));
        assert(eb[2] == b64_digit((b1 % 16) * 4 + b2 / 64, url));
        assert(ea[3] == b64_digit(a2 % 64, url));
        assert(eb[3] == b64_digit(b2 % 64, url));
        lemma_b64_digit_injective((a0 % 4) * 16 + a1 / 16, (b0 % 4) * 16 + b1 / 16, url);
        lemma_b64_digit_injective((a1 % 16) * 4 + a2 / 64, (b1 % 16) * 4 + b2 / 64, url);
        lemma_b64_digit_injective(a2 % 64, b2 % 64, url);
        lemma_split_unique(a0 % 4, a1 / 16, b0 % 4, b1 / 16, 16);
        lemma_split_unique(a1 % 16, a2 / 64, b1 % 16, b2 / 64, 4);
        lemma_split_unique(a0 / 4, a0 % 4, b0 / 4, b0 % 4, 4);
        lemma_split_unique(a1 / 16, a1 % 16, b1 / 16, b1 % 16, 16);
        lemma_split_unique(a2 / 64, a2 % 64, b2 / 64, b2 % 64, 64);
        assert(ea.skip(4) =~= b64_encode(a.skip(3), url, pad));
        assert(eb.skip(4) =~= b64_encode(b.skip(3), url, pad));
        lemma_b64_injective(a.skip(3), b.skip(3), url, pad);
        assert(a =~= b) by {
            assert forall|i: int| 0 <= i < a.len() implies a[i] == b[i] by {
                if i >= 3 {
                    assert(a[i] == a.skip(3)[i - 3]);
                    assert(b[i] == b.skip(3)[i - 3]);
                }
            }
        }
    } else if a.len() == 2 && b.len() == 2 {
        let (a1, b1) = (a[1] as int, b[1] as int);
        assert(ea[1] == b64_digit((a0 % 4) * 16 + a1 / 16, url));
        assert(eb[1] == b64_digit((b0 % 4) * 16 + b1 / 16, url));
        assert(ea[2] == b64_digit((a1 % 16) * 4, url));
        assert(eb[2] == b64_digit((b1 % 16) * 4, url));
        lemma_b64_digit_injective((a0 % 4) * 16 + a1 / 16, (b0 % 4) * 16 + b1 / 16, url);
        lemma_b64_digit_injective((a1 % 16) * 4, (b1 % 16) * 4, url);
        lemma_split_unique(a0 % 4, a1 / 16, b0 % 4, b1 / 16, 16);
        lemma_split_unique(a0 / 4, a0 % 4, b0 / 4, b0 % 4, 4);
        lemma_split_unique(a1 / 16, a1 % 16, b1 / 16, b1 % 16, 16);
        assert(a =~= b);
    } else if a.len() == 1 && b.len() == 1 {
        assert(ea[1] == b64_digit((a0 % 4) * 16, url));
        assert(eb[1] == b64_digit((b0 % 4) * 16, url));
        lemma_b64_digit_injective((a0 % 4) * 16, (b0 % 4) * 16, url);
        lemma_split_unique(a0 / 4, a0 % 4, b0 / 4, b0 % 4, 4);
        assert(a =~= b);
    } else {
        // Different group shapes: the lengths or a padding position differ.
        if pad {
            if a.len() >= 3 {
                assert(ea[3] == b64_digit((a[2] as int) % 64, url));
                lemma_b64_digit_injective((a[2] as int) % 64, 0, url);
                if b.len() == 1 {
                    assert(eb[3] == '=');
                } else if b.len() == 2 {
                    assert(eb[3] == '=');
                }
            } else if b.len() >= 3 {
                assert(eb[3] == b64_digit((b[2] as int) % 64, url));
                lemma_b64_digit_injective((b[2] as int) % 64, 0, url);
                assert(ea[3] == '=');
            } else if a.len() == 1 {
                assert(ea[2] == '=');
                assert(eb[2] == b64_digit(((b[1] as int) % 16) * 4, url));
                lemma_b64_digit_injective(((b[1] as int) % 16) * 4, 0, url);
            } else {
                assert(eb[2] == '=');
                assert(ea[2] == b64_digit(((a[1] as int) % 16) * 4, url));
                lemma_b64_digit_injective(((a[1] as int) % 16) * 4, 0, url);
            }
        }
    }
}

/// The length of a base64 encoding.
pub proof fn lemma_b64_len(a: Seq<u8>, url: bool, pad: bool)
    ensures
        b64_encode(a, url, pad).len() == (if pad {
            (((a.len() + 2) / 3) * 4) as int
        } else {
            (a.len() / 3) * 4 + (if a.len() % 3 == 0 {
                0int
            } else {
                (a.len() % 3 + 1) as int
            })
        }),
    decreases a.len(),
{
    if a.len() >= 3 {
        lemma_b64_len(a.skip(3), url, pad);
    }
}


/// No base64 character is a dot.
pub proof fn lemma_b64_digit_is_not_dot(v: int)
    requires
        0 <= v < 64,
    ensures
        b64_digit(v, true) != '.',
        b64_digit(v, false) != '.',
{
    lemma_b64_digit_injective(v, 0, true);
    lemma_b64_digit_injective(v, 0, false);
    let c = b64_digit(v, true);
    let d = b64_digit(v, false);
    assert(c as u32 != 46);
    assert(d as u32 != 46);
}

} // verus!
