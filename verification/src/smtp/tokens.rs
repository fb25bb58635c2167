//! Session tokens of the web app: PASETO v4 local tokens holding one claim,
//! the public token (the session's id, set as a cookie) and the stored token
//! (the user's email, kept in Redis under the session's key).

use vstd::prelude::*;
use crate::text::{chars_of, has_prefix, push_str, string_of};

verus! {

// ---------------------------------------------------------------------------
// Trusted items
// ---------------------------------------------------------------------------

/// The text a v4 local token holds under a claim's name, once decrypted
/// with the key and the implicit assertion (its claims read without
/// checking their validity time); `None` when it does not decrypt, has no
/// such claim, or the claim is not a JSON string.
pub uninterp spec fn token_claim_text(token: Seq<char>, key: Seq<u8>, implicit: Seq<u8>, name: Seq<char>) -> Option<Seq<char>>;

/// Calls pasetors to make a v4 local token holding one extra claim:
/// `SymmetricKey::<V4>::from(key)`, `Claims::new` (issued now, expiring in
/// an hour), `Claims::add_additional(name, value)` and `local::encrypt`
/// with `implicit` as the implicit assertion; `None` when any of them
/// fails (the key must be 32 bytes, and a registered claim's name is
/// refused). A token made begins with `v4.local.` and decrypts, with the same
/// key and implicit assertion, to claims holding `value` under `name`;
/// nothing more is promised of its text (it holds the current time and a
/// random nonce).
#[verifier::external_body]
fn encrypt_claim(key: &[u8], implicit: &[u8], name: &str, value: &str) -> (r: Option<String>)
    ensures
        key@.len() != 32 ==> r is None,
        r matches Some(t) ==> has_prefix(t@, "v4.local."@),
        r matches Some(t) ==> token_claim_text(t@, key@, implicit@, name@) == Some(value@),
{
    let sk = pasetors::keys::SymmetricKey::<pasetors::version4::V4>::from(key).ok()?;
    let mut claims = pasetors::claims::Claims::new().ok()?;
    claims.add_additional(name, value).ok()?;
    pasetors::local::encrypt(&sk, &claims, None, Some(implicit)).ok()
}

/// What a token holds under a claim's name.
pub enum ClaimValue {
    /// No claim of that name.
    Missing,
    /// A claim that is not a JSON string.
    NotText,
    /// A claim holding this text.
    Text(String),
}

/// Calls pasetors to open a v4 local token and read one claim:
/// `SymmetricKey::<V4>::from(key)`, `UntrustedToken::<Local, V4>::try_from`,
/// `local::decrypt` with the default `ClaimsValidationRules` and `implicit`
/// as the implicit assertion, then `payload_claims` and `get_claim(name)`.
/// The outer `None` is a token that does not open (a wrong key, a malformed
/// or forged token, or claims out of their validity time); inside it, what
/// the claim holds, which is what `token_claim_text` names. The source shows
/// the key must be 32 bytes and the token must begin with `v4.local.`;
/// whether a token opens also depends on the clock and is not promised.
#[verifier::external_body]
fn decrypt_claim(key: &[u8], implicit: &[u8], token: &str, name: &str) -> (r: Option<ClaimValue>)
    ensures
        key@.len() != 32 ==> r is None,
        !has_prefix(token@, "v4.local."@) ==> r is None,
        r matches Some(ClaimValue::Text(v)) ==> token_claim_text(token@, key@, implicit@, name@)
            == Some(v@),
        r matches Some(ClaimValue::Missing) ==> token_claim_text(token@, key@, implicit@, name@)
            is None,
        r matches Some(ClaimValue::NotText) ==> token_claim_text(token@, key@, implicit@, name@)
            is None,
{
    let sk = pasetors::keys::SymmetricKey::<pasetors::version4::V4>::from(key).ok()?;
    let untrusted =
        pasetors::token::UntrustedToken::<pasetors::Local, pasetors::version4::V4>::try_from(token)
            .ok()?;
    let rules = pasetors::claims::ClaimsValidationRules::new();
    let trusted = pasetors::local::decrypt(&sk, &untrusted, &rules, None, Some(implicit)).ok()?;
    let claims = trusted.payload_claims()?;
    match claims.get_claim(name) {
        Some(serde_json::Value::String(v)) => Some(ClaimValue::Text(v.clone())),
        Some(_) => Some(ClaimValue::NotText),
        None => Some(ClaimValue::Missing),
    }
}

// ---------------------------------------------------------------------------
// Tokens
// ---------------------------------------------------------------------------

/// Why a session token cannot be made or read.
#[derive(PartialEq, Eq, Structural, Clone, Copy, Debug)]
pub enum TokenError {
    /// pasetors could not make the token.
    Encrypt,
    /// The token does not open with the key.
    Invalid,
    /// The token does not hold the claim.
    MissingClaim,
    /// The token's claim is not text.
    NotText,
}

/// The Redis key of a session: `session_` and the session's id.
pub open spec fn session_key_text(session_id: Seq<char>) -> Seq<char> {
    "session_"@ + session_id
}

/// The Redis key a session's stored token is kept under.
pub fn session_key(session_id: &str) -> (r: String)
    ensures
        r@ == session_key_text(session_id@),
{
    let mut m = chars_of("session_");
    push_str(&mut m, session_id);
    string_of(m.as_slice())
}

/// What making a token gives for what pasetors gave: the token, or
/// `Encrypt` when it made none.
pub fn token_outcome(made: Option<String>) -> (r: Result<String, TokenError>)
    ensures
        match made {
            None => r == Err::<String, TokenError>(TokenError::Encrypt),
            Some(t) => r matches Ok(u) && u@ == t@,
        },
{
    match made {
        Some(t) => Ok(t),
        None => Err(TokenError::Encrypt),
    }
}

/// The token stored for a session: the user's email as the `session` claim.
pub fn build_sss_data_token(key: &[u8], hmac: &[u8], email: &str) -> (r: Result<String, TokenError>)
    ensures
        key@.len() != 32 ==> r == Err::<String, TokenError>(TokenError::Encrypt),
        r is Err ==> r == Err::<String, TokenError>(TokenError::Encrypt),
        r matches Ok(t) ==> has_prefix(t@, "v4.local."@),
        r matches Ok(t) ==> token_claim_text(t@, key@, hmac@, "session"@) == Some(email@),
{
    token_outcome(encrypt_claim(key, hmac, "session", email))
}

/// The public token of a session, set as the session cookie: the session's
/// id as the `session_uuid` claim.
pub fn build_sss_pub_token(key: &[u8], hmac: &[u8], session_id: &str) -> (r: Result<
    String,
    TokenError,
>)
    ensures
        key@.len() != 32 ==> r == Err::<String, TokenError>(TokenError::Encrypt),
        r is Err ==> r == Err::<String, TokenError>(TokenError::Encrypt),
        r matches Ok(t) ==> has_prefix(t@, "v4.local."@),
        r matches Ok(t) ==> token_claim_text(t@, key@, hmac@, "session_uuid"@) == Some(
            session_id@,
        ),
{
    token_outcome(encrypt_claim(key, hmac, "session_uuid", session_id))
}

/// What reading a claim gives for what opening the token gave: `Invalid`
/// when it did not open, `MissingClaim` when it holds no such claim,
/// `NotText` when the claim is not text, else the claim's text.
pub fn claim_outcome(read: Option<ClaimValue>) -> (r: Result<String, TokenError>)
    ensures
        match read {
            None => r == Err::<String, TokenError>(TokenError::Invalid),
            Some(ClaimValue::Missing) => r == Err::<String, TokenError>(TokenError::MissingClaim),
            Some(ClaimValue::NotText) => r == Err::<String, TokenError>(TokenError::NotText),
            Some(ClaimValue::Text(v)) => r matches Ok(t) && t@ == v@,
        },
{
    match read {
        None => Err(TokenError::Invalid),
        Some(ClaimValue::Missing) => Err(TokenError::MissingClaim),
        Some(ClaimValue::NotText) => Err(TokenError::NotText),
        Some(ClaimValue::Text(v)) => Ok(v),
    }
}

/// Reads a claim of a token made with the key (see `claim_outcome`); text
/// that is not a `v4.local.` token never opens. Whether a token opens also
/// depends on the clock (its validity time). The key must be a valid key
/// (32 bytes).
pub fn get_token_claim(key: &[u8], hmac: &[u8], token: &str, name: &str) -> (r: Result<
    String,
    TokenError,
>)
    requires
        key@.len() == 32,
    ensures
        !has_prefix(token@, "v4.local."@) ==> r == Err::<String, TokenError>(TokenError::Invalid),
        r matches Err(e) ==> e != TokenError::Encrypt,
        r matches Ok(v) ==> token_claim_text(token@, key@, hmac@, name@) == Some(v@),
        r == Err::<String, TokenError>(TokenError::MissingClaim) ==> token_claim_text(
            token@,
            key@,
            hmac@,
            name@,
        ) is None,
        r == Err::<String, TokenError>(TokenError::NotText) ==> token_claim_text(
            token@,
            key@,
            hmac@,
            name@,
        ) is None,
{
    claim_outcome(decrypt_claim(key, hmac, token, name))
}

/// A session token reads back what was written into it: when the stored
/// token made for `email` opens under the same key and implicit assertion,
/// its `session` claim is `email`; when the public token made for a session
/// id opens, its `session_uuid` claim is that id. (`written` is what the
/// builder's contract states of the token, `read` what `get_token_claim`'s
/// contract states of an `Ok` reading.)
pub proof fn lemma_token_reads_back(
    token: Seq<char>,
    key: Seq<u8>,
    hmac: Seq<u8>,
    name: Seq<char>,
    written: Seq<char>,
    read: Seq<char>,
)
    requires
        token_claim_text(token, key, hmac, name) == Some(written),
        token_claim_text(token, key, hmac, name) == Some(read),
    ensures
        read == written,
{
}

} // verus!
