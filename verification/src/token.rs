//! What the token and identifier crates decide: signed tokens and UUIDs.

use jsonwebtoken::{decode, Algorithm, DecodingKey, Validation};
use serde::de::IgnoredAny;
use uuid::Uuid;
use vstd::prelude::*;

verus! {

/// Why a token was turned down.
#[verifier::external_type_specification]
#[verifier::external_body]
pub struct ExTokenError(jsonwebtoken::errors::Error);

/// Why a text is no UUID.
#[verifier::external_type_specification]
#[verifier::external_body]
pub struct ExUuidError(uuid::Error);

/// How a token is signed.
#[derive(Debug, Clone, Copy, PartialEq, Eq, Structural)]
pub enum Signing {
    /// By HMAC with SHA-256.
    Hs256,
}

/// Whether `token` passes when the clock shows `now`, in seconds since 1970: it is signed in the
/// given way with `secret`, it has not expired, and its audience and issuer claims pass for
/// `audience` and `issuer`.
pub uninterp spec fn passes(
    token: Seq<char>,
    signing: Signing,
    secret: Seq<char>,
    audience: Seq<char>,
    issuer: Seq<char>,
    now: u64,
) -> bool;

/// Calls `jsonwebtoken::decode` with the given algorithm, secret, audience and issuer. The claims
/// are skipped over, not read: any JSON passes that a type of claims could be read from.
///
/// Claimed: the token, the algorithm, the secret, the audience, the issuer and the time that the
/// clock shows decide whether the token passes. Left unsaid: which time that is. `decode` reads the
/// clock to compare the token's `exp` claim with it, and takes for granted that the clock shows
/// more than a minute since the start of 1970.
#[verifier::external_body]
pub(crate) fn decode_token(
    token: &str,
    signing: Signing,
    secret: &str,
    audience: &str,
    issuer: &str,
) -> (res: Result<(), jsonwebtoken::errors::Error>)
    ensures
        exists|now: u64|
            (res is Ok) == #[trigger] passes(token@, signing, secret@, audience@, issuer@, now),
{
    let algorithm = match signing {
        Signing::Hs256 => Algorithm::HS256,
    };
    let mut validation = Validation::new(algorithm);
    validation.set_audience(&[audience]);
    validation.set_issuer(&[issuer]);
    let key = DecodingKey::from_secret(secret.as_bytes());
    decode::<IgnoredAny>(token, &key, &validation)?;
    Ok(())
}

/// Whether a token was accepted; one that was turned down is not, whatever the reason.
pub fn accepted(decoded: Result<(), jsonwebtoken::errors::Error>) -> (accepted: bool)
    ensures
        accepted == (decoded is Ok),
{
    match decoded {
        Ok(()) => true,
        Err(_) => false,
    }
}

/// The UUID that `text` writes, as a number, if it writes one.
pub uninterp spec fn parsed_uuid(text: Seq<char>) -> Option<u128>;

/// Calls `uuid::Uuid::parse_str` and gives the UUID as a number.
///
/// Claimed: the text alone decides whether it is a UUID, and which.
#[verifier::external_body]
pub(crate) fn parse_uuid(text: &str) -> (res: Result<u128, uuid::Error>)
    ensures
        match res {
            Ok(id) => parsed_uuid(text@) == Some(id),
            Err(_) => parsed_uuid(text@) is None,
        },
{
    let id = Uuid::parse_str(text)?;
    Ok(id.as_u128())
}

} // verus!
