//! Bearer-token guard and token issuance.
//!
//! A token carries signed claims `{issuer, issued-at, expires-at}`. The
//! guard accepts a token exactly when its signature verifies against the
//! shared secret, the issuer is the fixed dashboard issuer, both timestamp
//! claims are present, and the clock has not reached expiry. When password
//! protection is disabled the guard passes without inspecting the token.

use vstd::prelude::*;
use crate::config::Config;
use crate::text::hex_matches;
use crate::text::spec_hex_of_bytes;
use crate::text::str_is;

verus! {

/// The claims carried by a well-signed token: issuer, issued-at and
/// expires-at. `None` when the signature, the token's shape, or the claims'
/// types are wrong. A function of the token text and the secret alone.
pub uninterp spec fn jwt_claims_of(token: Seq<char>, secret: Seq<char>) -> Option<
    (Seq<char>, u64, u64),
>;

/// Relies on jsonwebtoken::decode with HS256 and only signature validation
/// switched on: it yields the token's claims exactly when the token has the
/// three-part shape, its signature verifies against `secret`, and the claims
/// are a JSON object. The string `iss` and integer `iat` and `exp` members
/// are then handed out as plain values.
#[verifier::external_body]
fn decode_claims(token: &str, secret: &str) -> (r: Option<(String, u64, u64)>)
    ensures
        match r {
            Some(c) => jwt_claims_of(token@, secret@) == Some((c.0@, c.1, c.2)),
            None => jwt_claims_of(token@, secret@) is None,
        },
{
    let mut validation = jsonwebtoken::Validation::new(jsonwebtoken::Algorithm::HS256);
    validation.validate_exp = false;
    validation.required_spec_claims = std::collections::HashSet::new();
    let key = jsonwebtoken::DecodingKey::from_secret(secret.as_bytes());
    let data = jsonwebtoken::decode::<serde_json::Value>(token, &key, &validation).ok()?;
    let iss = data.claims.get("iss")?.as_str()?.to_owned();
    let iat = data.claims.get("iat")?.as_u64()?;
    let exp = data.claims.get("exp")?.as_u64()?;
    Some((iss, iat, exp))
}

/// The signed token text for the given claims. `None` when signing fails.
/// A function of the claims and the secret alone.
pub uninterp spec fn jwt_token_of(iss: Seq<char>, iat: u64, exp: u64, secret: Seq<char>) -> Option<
    Seq<char>,
>;

/// Relies on jsonwebtoken::encode with the default HS256 header: the token is
/// built from the serialized claims and their HMAC, so it depends on the
/// claims and the secret alone.
#[verifier::external_body]
fn encode_claims(iss: &str, iat: u64, exp: u64, secret: &str) -> (r: Option<String>)
    ensures
        match r {
            Some(t) => jwt_token_of(iss@, iat, exp, secret@) == Some(t@),
            None => jwt_token_of(iss@, iat, exp, secret@) is None,
        },
{
    let mut claims = serde_json::Map::new();
    claims.insert("iss".to_owned(), serde_json::Value::from(iss));
    claims.insert("iat".to_owned(), serde_json::Value::from(iat));
    claims.insert("exp".to_owned(), serde_json::Value::from(exp));
    let key = jsonwebtoken::EncodingKey::from_secret(secret.as_bytes());
    jsonwebtoken::encode(&jsonwebtoken::Header::default(), &serde_json::Value::Object(claims), &key).ok()
}

/// The SHA-512 digest, 64 bytes, of the given bytes.
pub uninterp spec fn sha512_of(data: Seq<u8>) -> Seq<u8>;

/// Relies on ring::digest::digest with SHA-512: the digest is 64 bytes and
/// depends on the input bytes alone.
#[verifier::external_body]
fn sha512(data: &[u8]) -> (r: Vec<u8>)
    ensures
        r@ == sha512_of(data@),
        r@.len() == 64,
{
    ring::digest::digest(&ring::digest::SHA512, data).as_ref().to_vec()
}

/// The issuer every dashboard token must carry.
pub open spec fn spec_issuer() -> Seq<char> {
    "DietPi Dashboard"@
}

/// A token is valid at time `now` when it decodes under the secret, names
/// the dashboard issuer, and has not expired.
pub closed spec fn spec_token_valid(token: Seq<char>, secret: Seq<char>, now: u64) -> bool {
    match jwt_claims_of(token, secret) {
        Some(claims) => claims.0 == spec_issuer() && now < claims.2,
        None => false,
    }
}

/// The guard is `false` whenever the signature fails, the issuer is not the
/// dashboard's, or expiry is not after `now`; it is `true` only when all
/// three checks pass.
pub proof fn lemma_token_valid_characterized(token: Seq<char>, secret: Seq<char>, now: u64)
    ensures
        jwt_claims_of(token, secret) is None ==> !spec_token_valid(token, secret, now),
        jwt_claims_of(token, secret) matches Some(claims) && claims.0 != spec_issuer()
            ==> !spec_token_valid(token, secret, now),
        jwt_claims_of(token, secret) matches Some(claims) && claims.2 <= now
            ==> !spec_token_valid(token, secret, now),
        spec_token_valid(token, secret, now) <==> (jwt_claims_of(token, secret) matches Some(claims)
            && claims.0 == spec_issuer() && now < claims.2),
{
}

/// Decides whether `token` is accepted at time `now` under `secret`.
pub fn validate_token(token: &str, secret: &str, now: u64) -> (r: bool)
    ensures
        r == spec_token_valid(token@, secret@, now),
{
    match decode_claims(token, secret) {
        Some(claims) => {
            let (iss, _iat, exp) = claims;
            str_is(iss.as_str(), "DietPi Dashboard") && now < exp
        },
        None => false,
    }
}

/// What the login endpoint answers to one presented password.
pub enum LoginOutcome {
    /// Password protection is off: nothing to log in to.
    NoLoginNeeded,
    /// The password's digest does not match the configured hash.
    Unauthorized,
    /// The password matched and a signed token was issued.
    Token(String),
    /// The password matched but the signer failed.
    SigningFailed,
}

/// Checks a presented password against the configured hash and, on a match,
/// issues a token valid from `now` for `config.expiry` seconds.
pub fn login_attempt(password: &[u8], config: &Config, now: u64) -> (r: LoginOutcome)
    requires
        now + config.expiry <= u64::MAX,
    ensures
        !config.pass <==> r is NoLoginNeeded,
        config.pass && config.hash@ != spec_hex_of_bytes(sha512_of(password@)) <==> r
            is Unauthorized,
        r matches LoginOutcome::Token(t) ==> jwt_token_of(
            spec_issuer(),
            now,
            (now + config.expiry) as u64,
            config.secret@,
        ) == Some(t@),
        config.pass && config.hash@ == spec_hex_of_bytes(sha512_of(password@)) ==> (r
            is Token <==> jwt_token_of(
            spec_issuer(),
            now,
            (now + config.expiry) as u64,
            config.secret@,
        ) is Some),
{
    if !config.pass {
        return LoginOutcome::NoLoginNeeded;
    }
    let digest = sha512(password);
    if !hex_matches(digest.as_slice(), config.hash.as_str()) {
        return LoginOutcome::Unauthorized;
    }
    match encode_claims("DietPi Dashboard", now, now + config.expiry, config.secret.as_str()) {
        Some(token) => LoginOutcome::Token(token),
        None => LoginOutcome::SigningFailed,
    }
}

} // verus!
