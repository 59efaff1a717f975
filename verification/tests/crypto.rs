use ironshelf::auth::hash_session_id;
use ironshelf::crypto::{b64_encode_exec, hex_encode};
use ironshelf::sso::{base64_url_encode, cloud_base64_url_decode};
use ironshelf::media_token::{looks_like_media_token, mint_at, sign, verify_at, MEDIA_TOKEN_TTL_SECS};

#[test]
fn sha256_of_abc() {
    assert_eq!(
        hash_session_id("abc"),
        "ba7816bf8f01cfea414140de5dae2223b00361a396177a9cb410ff61f20015ad"
    );
}

#[test]
fn hmac_known_answer() {
    let tag = hex::decode("5bdcc146bf60754e6a042426089575c75a003f089d2739839dec58b964ec3843").unwrap();
    assert_eq!(sign("Jefe", "what do ya want for nothing?"), base64_url_encode(&tag));
    let token = format!("u.5.{}", sign("k", "u.5"));
    assert_eq!(verify_at(&token, "k", 0), Some("u".to_string()));
    let truncated = format!("u.5.{}", base64_url_encode(&hex::decode("00").unwrap()));
    assert_eq!(verify_at(&truncated, "k", 0), None);
}

#[test]
fn hex_is_lowercase_two_digits_per_byte() {
    assert_eq!(hex_encode(&[0x00, 0x0f, 0xa0, 0xff]), "000fa0ff");
    assert_eq!(hex_encode(&[]), "");
}

#[test]
fn base64_forms() {
    let s: String = b64_encode_exec(b"\xfb\xff", false, true).into_iter().collect();
    assert_eq!(s, "+/8=");
    let u: String = b64_encode_exec(b"\xfb\xff", true, false).into_iter().collect();
    assert_eq!(u, "-_8");
    assert_eq!(base64_url_encode(b"hello"), "aGVsbG8");
    let padded = format!("u.5.{}=", sign("k", "u.5"));
    assert_eq!(verify_at(&padded, "k", 0), None);
    assert_eq!(cloud_base64_url_decode("aGVsbG8"), Some(b"hello".to_vec()));
    assert_eq!(cloud_base64_url_decode("aGVsbG9"), None);
    assert_eq!(cloud_base64_url_decode("aGVsbG8="), Some(b"hello".to_vec()));
}

#[test]
fn media_tokens_round_trip_until_expiry() {
    let token = mint_at("secret", "user-1", 1000);
    assert!(token.starts_with("user-1.1900."));
    assert!(looks_like_media_token(&token));
    assert_eq!(verify_at(&token, "secret", 1000), Some("user-1".to_string()));
    assert_eq!(verify_at(&token, "secret", 1000 + MEDIA_TOKEN_TTL_SECS), Some("user-1".to_string()));
    assert_eq!(verify_at(&token, "secret", 1001 + MEDIA_TOKEN_TTL_SECS), None);
    assert_eq!(verify_at(&token, "other", 1000), None);
}

#[test]
fn media_token_signature_is_hmac_in_base64url() {
    let expected = sign("k", "u.5");
    assert_eq!(expected.len(), 43);
    assert!(!expected.contains('=') && !expected.contains('+') && !expected.contains('/'));
    let forged = format!("u.5.{}", expected);
    assert_eq!(verify_at(&forged, "k", 5), Some("u".to_string()));
    assert_eq!(verify_at(&forged, "k", 6), None);
    assert_eq!(verify_at(".5.sig", "k", 0), None);
}

#[test]
fn media_token_shapes() {
    assert!(!looks_like_media_token("irs_abc.123.sig"));
    assert!(!looks_like_media_token("a.12x.sig"));
    assert!(!looks_like_media_token("a.12"));
    assert!(looks_like_media_token("a.12.s"));
}
