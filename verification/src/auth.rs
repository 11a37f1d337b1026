//! Bearer-token issuance and password hashing.
//!
//! The cryptography is done by outside crates; this module pins down what
//! the coordinator's surroundings may assume of it. A freshly issued token
//! is a pure function of subject, expiry and secret, named [`jwt_for`];
//! whether a password matches a stored hash is a pure function of the two
//! strings, named [`bcrypt_verifies`].

use vstd::prelude::*;

verus! {

/// The payload of a bearer token: the subject (a user id rendered as text)
/// and the expiry as seconds since the epoch.
#[derive(Debug, Clone)]
pub struct Claims {
    pub sub: String,
    pub exp: usize,
}

/// Why issuing or checking a credential failed.
#[derive(Clone, Copy, PartialEq, Eq, Structural, Debug)]
pub enum AuthError {
    /// The token could not be created, or was rejected by the verifier.
    Token,
    /// The password hash could not be computed or parsed.
    Hash,
}

/// jsonwebtoken's error type, declared so the encode and decode wrappers
/// can return it; it is opaque here and mapped at once to [`AuthError`].
#[verifier::external_type_specification]
#[verifier::external_body]
pub struct ExJwtError(jsonwebtoken::errors::Error);

/// bcrypt's error type, declared for the hash and verify wrappers; opaque
/// here and mapped at once to [`AuthError`].
#[verifier::external_type_specification]
#[verifier::external_body]
pub struct ExBcryptError(bcrypt::BcryptError);

/// The token that signing a `{sub, exp}` payload with `secret` under the
/// default header yields. Opaque: only the encoder knows its shape.
pub uninterp spec fn jwt_for(sub: Seq<char>, exp: usize, secret: Seq<char>) -> Seq<char>;

/// Whether bcrypt's verify answers yes — `Ok(true)` — for this password
/// against this hash; a function of the two strings alone.
pub uninterp spec fn bcrypt_verifies(password: Seq<char>, hash: Seq<char>) -> bool;

/// Relies on chrono's Utc::now for the wall clock, as seconds since the
/// epoch. Nothing is assumed of the value: the clock may read anything,
/// and [`exp_at`] clamps even a pre-epoch reading. Utc::now itself panics
/// on a clock before the epoch — the one call here that can.
#[verifier::external_body]
fn now_timestamp() -> i64 {
    chrono::Utc::now().timestamp()
}

/// Relies on jsonwebtoken::encode: with the default header and an HMAC
/// secret, the token is a function of the claims and the secret alone, and
/// every path through encode succeeds (HMAC takes any key length and the
/// claims map always serializes).
#[verifier::external_body]
fn encode_claims(claims: &Claims, secret: &str) -> (r: Result<String, jsonwebtoken::errors::Error>)
    ensures
        r is Ok,
        r matches Ok(t) ==> t@ == jwt_for(claims.sub@, claims.exp, secret@),
{
    let mut payload = serde_json::Map::new();
    payload.insert("sub".to_string(), serde_json::Value::String(claims.sub.clone()));
    payload.insert("exp".to_string(), serde_json::Value::from(claims.exp));
    jsonwebtoken::encode(
        &jsonwebtoken::Header::default(),
        &serde_json::Value::Object(payload),
        &jsonwebtoken::EncodingKey::from_secret(secret.as_bytes()),
    )
}

/// Relies on jsonwebtoken::decode with the default validation: it checks
/// the signature against the secret and the expiry against the current
/// time, so nothing is assumed of the outcome.
#[verifier::external_body]
fn decode_token(token: &str, secret: &str) -> Result<Claims, jsonwebtoken::errors::Error> {
    let data = jsonwebtoken::decode::<serde_json::Value>(
        token,
        &jsonwebtoken::DecodingKey::from_secret(secret.as_bytes()),
        &jsonwebtoken::Validation::default(),
    )?;
    let sub = match data.claims.get("sub").and_then(serde_json::Value::as_str) {
        Some(s) => s.to_owned(),
        None => return Err(jsonwebtoken::errors::ErrorKind::InvalidToken.into()),
    };
    match data.claims.get("exp").and_then(serde_json::Value::as_u64) {
        Some(e) => Ok(Claims { sub, exp: e as usize }),
        None => Err(jsonwebtoken::errors::ErrorKind::InvalidToken.into()),
    }
}

/// Relies on bcrypt::hash with the crate's default cost. The random salt
/// makes the result nondeterministic, but bcrypt's verify accepts any hash
/// it produces for the password it was produced from.
#[verifier::external_body]
fn bcrypt_hash(password: &str) -> (r: Result<String, bcrypt::BcryptError>)
    ensures
        r matches Ok(h) ==> bcrypt_verifies(password@, h@),
{
    bcrypt::hash(password, bcrypt::DEFAULT_COST)
}

/// Relies on bcrypt::verify: the answer is a function of password and hash
/// alone, and it errs only on a hash it cannot parse — never with a yes
/// answer to give.
#[verifier::external_body]
fn bcrypt_check(password: &str, hash: &str) -> (r: Result<
    bool,
    bcrypt::BcryptError,
>)
    ensures
        r matches Ok(b) ==> b == bcrypt_verifies(password@, hash@),
        r is Err ==> !bcrypt_verifies(password@, hash@),
{
    bcrypt::verify(password, hash)
}

/// Expiry of a freshly issued token: seven days after `now`, clamped into
/// the range of `usize` (a clock before the epoch yields 0).
pub open spec fn exp_at(now: i64) -> usize {
    if now < 0 {
        0
    } else if now > usize::MAX - 604800 {
        usize::MAX
    } else {
        (now + 604800) as usize
    }
}

/// The claims a token issued at time `now` carries.
fn claims_for(user_id: &str, now: i64) -> (c: Claims)
    ensures
        c.sub@ == user_id@,
        c.exp == exp_at(now),
{
    let exp: usize = if now < 0 {
        0
    } else if (now as u64) > (usize::MAX as u64) - 604800 {
        usize::MAX
    } else {
        (now as usize) + 604800
    };
    Claims { sub: user_id.to_owned(), exp }
}

/// Issue a token for `user_id` as of time `now`: issuing always succeeds,
/// the subject is carried verbatim and the expiry is seven days out.
pub fn create_jwt_at(user_id: &str, secret: &str, now: i64) -> (r: Result<String, AuthError>)
    ensures
        r matches Ok(t) && t@ == jwt_for(user_id@, exp_at(now), secret@),
{
    let claims = claims_for(user_id, now);
    match encode_claims(&claims, secret) {
        Ok(t) => Ok(t),
        Err(_) => Err(AuthError::Token),
    }
}

/// Issue a token for `user_id` dated by the wall clock.
pub fn create_jwt(user_id: &str, secret: &str) -> (r: Result<String, AuthError>)
    ensures
        r matches Ok(t) && exists|now: i64| t@ == #[trigger] jwt_for(
            user_id@,
            exp_at(now),
            secret@,
        ),
{
    let now = now_timestamp();
    create_jwt_at(user_id, secret, now)
}

/// Check a presented token. The outside verifier decides: a rejected,
/// expired or malformed token comes back as [`AuthError::Token`].
pub fn decode_jwt(token: &str, secret: &str) -> (r: Result<Claims, AuthError>)
    ensures
        r matches Err(e) ==> e == AuthError::Token,
{
    match decode_token(token, secret) {
        Ok(c) => Ok(c),
        Err(_) => Err(AuthError::Token),
    }
}

/// Hash a password for storage. Any hash returned verifies the password it
/// was made from.
pub fn hash_password(password: &str) -> (r: Result<String, AuthError>)
    ensures
        r matches Ok(h) ==> bcrypt_verifies(password@, h@),
        r matches Err(e) ==> e == AuthError::Hash,
{
    match bcrypt_hash(password) {
        Ok(h) => Ok(h),
        Err(_) => Err(AuthError::Hash),
    }
}

/// Check a password against a stored hash. An unparsable hash is an error,
/// and then in particular not a match.
pub fn verify_password(password: &str, hash: &str) -> (r: Result<bool, AuthError>)
    ensures
        r matches Ok(b) ==> b == bcrypt_verifies(password@, hash@),
        r is Err ==> !bcrypt_verifies(password@, hash@),
        r matches Err(e) ==> e == AuthError::Hash,
{
    match bcrypt_check(password, hash) {
        Ok(b) => Ok(b),
        Err(_) => Err(AuthError::Hash),
    }
}

} // verus!
