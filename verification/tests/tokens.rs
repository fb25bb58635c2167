use pebbles::smtp::tokens::{
    build_sss_data_token, build_sss_pub_token, claim_outcome, get_token_claim, session_key,
    token_outcome, ClaimValue, TokenError,
};

const KEY: [u8; 32] = [7u8; 32];

#[test]
fn session_keys() {
    assert_eq!(session_key("abc"), "session_abc");
    assert_eq!(session_key(""), "session_");
}

#[test]
fn data_token_roundtrip() {
    let t = build_sss_data_token(&KEY, b"hmac", "napstablook@shadedcitadel.xyz").unwrap();
    assert!(t.starts_with("v4.local."));
    assert_eq!(
        get_token_claim(&KEY, b"hmac", &t, "session"),
        Ok("napstablook@shadedcitadel.xyz".to_string())
    );
    assert_eq!(get_token_claim(&KEY, b"hmac", &t, "session_uuid"), Err(TokenError::MissingClaim));
}

#[test]
fn pub_token_roundtrip() {
    let t = build_sss_pub_token(&KEY, b"hmac", "1234-abcd").unwrap();
    assert!(t.starts_with("v4.local."));
    assert_eq!(get_token_claim(&KEY, b"hmac", &t, "session_uuid"), Ok("1234-abcd".to_string()));
}

#[test]
fn bad_tokens_and_keys() {
    assert_eq!(get_token_claim(&KEY, b"hmac", "not a token", "session"), Err(TokenError::Invalid));
    let t = build_sss_data_token(&KEY, b"hmac", "a@b").unwrap();
    assert_eq!(get_token_claim(&KEY, b"other", &t, "session"), Err(TokenError::Invalid));
    assert_eq!(get_token_claim(&[8u8; 32], b"hmac", &t, "session"), Err(TokenError::Invalid));
    assert_eq!(build_sss_data_token(&[1u8; 16], b"hmac", "a@b"), Err(TokenError::Encrypt));
    assert_eq!(build_sss_pub_token(&[1u8; 31], b"hmac", "x"), Err(TokenError::Encrypt));
}

#[test]
fn claim_outcomes() {
    assert_eq!(claim_outcome(None), Err(TokenError::Invalid));
    assert_eq!(claim_outcome(Some(ClaimValue::Missing)), Err(TokenError::MissingClaim));
    assert_eq!(claim_outcome(Some(ClaimValue::NotText)), Err(TokenError::NotText));
    assert_eq!(claim_outcome(Some(ClaimValue::Text("x".into()))), Ok("x".to_string()));
    assert_eq!(token_outcome(None), Err(TokenError::Encrypt));
    assert_eq!(token_outcome(Some("v4.local.t".into())), Ok("v4.local.t".to_string()));
}

#[test]
fn issued_at_claim_is_text() {
    let t = build_sss_data_token(&KEY, b"hmac", "a@b").unwrap();
    assert!(get_token_claim(&KEY, b"hmac", &t, "iat").is_ok());
}

#[test]
fn tokens_are_bound_to_their_implicit_assertion_and_claim() {
    let t = build_sss_pub_token(&KEY, b"hmac", "sid-1").unwrap();
    assert_eq!(get_token_claim(&KEY, b"hmac", &t, "session_uuid"), Ok("sid-1".to_string()));
    assert_eq!(get_token_claim(&KEY, b"hmac", &t, "session"), Err(TokenError::MissingClaim));
    assert_eq!(get_token_claim(&KEY, b"hmac2", &t, "session_uuid"), Err(TokenError::Invalid));
}
