use ironshelf::media_token::sign;
use ironshelf::error::AppError;
use ironshelf::sso::{
    base64_url_decode, base64_url_encode, build_base_url, check_auto_register,
    check_cloud_token_expiry, cloud_base64_url_decode, compute_pkce_challenge,
    decode_id_token_payload, discovery_url, entitlement_id, numbered_username, sso_username,
    token_exchange_form, verify_cloud_token_payload,
};

#[test]
fn pkce_challenge_known_answer() {
    assert_eq!(
        compute_pkce_challenge("dBjftJeZ4CVP-mB92K27uhbUJU1p1r_wW1gFWFOEjXk"),
        "E9Melhoa2OwvFrEMTJguCHaoeK1t8URWbuGJSstw-cM"
    );
}

#[test]
fn discovery_urls() {
    assert_eq!(discovery_url("https://id.example.org//"), "https://id.example.org/.well-known/openid-configuration");
}

#[test]
fn lenient_decoding() {
    assert_eq!(base64_url_decode("aGVsbG8").ok(), Some(b"hello".to_vec()));
    assert_eq!(base64_url_decode("aGVsbG8=").ok(), Some(b"hello".to_vec()));
    assert_eq!(base64_url_decode("-_8").ok(), Some(vec![0xfb, 0xff]));
    assert_eq!(base64_url_decode("+/8").ok(), Some(vec![0xfb, 0xff]));
    assert_eq!(base64_url_decode("ab!c").err(), Some("Invalid base64 character: !".to_string()));
    assert_eq!(base64_url_encode(&[0xfb, 0xff]), "-_8");
}

#[test]
fn id_token_payloads() {
    let payload = base64_url_encode(b"{\"sub\":\"42\"}");
    let token = format!("h.{}.s", payload);
    assert_eq!(decode_id_token_payload(&token).ok(), Some(b"{\"sub\":\"42\"}".to_vec()));
    match decode_id_token_payload("only.two") {
        Err(AppError::Internal(m)) => assert_eq!(m, "Invalid JWT format in id_token"),
        _ => panic!("expected an internal error"),
    }
    match decode_id_token_payload("a.b$.c") {
        Err(AppError::Internal(m)) => {
            assert_eq!(m, "Failed to decode JWT payload: Invalid base64 character: $")
        }
        _ => panic!("expected an internal error"),
    }
}

#[test]
fn token_exchange() {
    let form = token_exchange_form("c0de", "client", Some("s3"), "https://x/cb", "ver");
    assert_eq!(form.len(), 6);
    assert_eq!(form[0], ("grant_type".to_string(), "authorization_code".to_string()));
    assert_eq!(form[1], ("code".to_string(), "c0de".to_string()));
    assert_eq!(token_exchange_form("c", "id", None, "r", "v").len(), 5);
}

#[test]
fn usernames_and_ids() {
    assert_eq!(sso_username(Some("pref"), Some("e@x"), "sub"), "pref");
    assert_eq!(sso_username(None, Some("e@x"), "sub"), "e@x");
    assert_eq!(sso_username(None, None, "sub"), "sub");
    assert_eq!(numbered_username("alice", 3), "alice3");
    assert_eq!(build_base_url("host:8080"), "http://host:8080");
    assert_eq!(entitlement_id(-7), "ironshelf--7");
    assert!(check_auto_register(true).is_ok());
    match check_auto_register(false) {
        Err(AppError::Forbidden(m)) => {
            assert_eq!(m, "No linked account found and auto-registration is disabled")
        }
        _ => panic!("expected forbidden"),
    }
}

#[test]
fn cloud_decoding_adds_padding() {
    assert_eq!(cloud_base64_url_decode("aGVsbG8"), Some(b"hello".to_vec()));
    assert_eq!(cloud_base64_url_decode("-_8"), Some(vec![0xfb, 0xff]));
    assert_eq!(cloud_base64_url_decode("a"), None);
}

#[test]
fn cloud_tokens() {
    let header = base64_url_encode(b"{\"alg\":\"HS256\"}");
    let payload = base64_url_encode(b"{\"sub\":\"u\",\"exp\":10}");
    let signed = format!("{}.{}", header, payload);
    let sig = sign("claim", &signed);
    let token = format!("{}.{}", signed, sig);
    assert_eq!(verify_cloud_token_payload(&token, "claim").ok(), Some("{\"sub\":\"u\",\"exp\":10}".to_string()));
    assert_eq!(verify_cloud_token_payload(&token, "other").err(), Some("Invalid token signature".to_string()));
    assert_eq!(verify_cloud_token_payload("a.b", "claim").err(), Some("Invalid token format".to_string()));
    assert_eq!(
        verify_cloud_token_payload(&format!("{}.!!", signed), "claim").err(),
        Some("Invalid signature encoding".to_string())
    );
    assert!(check_cloud_token_expiry(10, 10).is_ok());
    assert_eq!(check_cloud_token_expiry(11, 10).err(), Some("Token expired".to_string()));
}

#[test]
fn cloud_update_address() {
    assert_eq!(
        ironshelf::sso::cloud_server_update_url("https://cloud.example.com//", "srv-1"),
        "https://cloud.example.com/api/v1/servers/srv-1"
    );
    assert_eq!(ironshelf::sso::cloud_server_update_url("https://c", "x"), "https://c/api/v1/servers/x");
}

#[test]
fn base64_url_round_trip() {
    for bytes in [vec![], vec![0u8], vec![0xfb, 0xff], vec![1, 2, 3], (0u8..=255).collect::<Vec<u8>>()] {
        let text = ironshelf::sso::base64_url_encode(&bytes);
        assert!(!text.contains('='));
        assert_eq!(ironshelf::sso::base64_url_decode(&text), Ok(bytes));
    }
}
