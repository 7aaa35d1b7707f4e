//! Credential issuer and validator.
//!
//! A credential is a stateless signed token (JWT, HS256) over the claim set
//! `{sub, company, exp}`: `sub` is the email of the user the credential was
//! issued to, `company` is a fixed issuer claim, and `exp` is a configurable
//! expiry timestamp. The signing key is not a compiled-in constant: every
//! function takes it as an argument, so the host loads it once at startup.

use vstd::prelude::*;

verus! {

/// The claim set carried by an access credential.
pub struct TokenClaims {
    /// The subject: the email of the user the credential was issued to.
    pub sub: String,
    /// The fixed issuer claim.
    pub company: String,
    /// Expiry, as seconds since the Unix epoch.
    pub exp: u64,
}

/// The claim triple that signature verification under `key` recovers from
/// `token`: `Some((sub, company, exp))` when the token was signed under
/// `key` and carries a string `sub`, a string `company` and an unsigned
/// integer `exp` claim; `None` otherwise. Verification and parsing depend
/// on the token and the key alone, so this is a pure function of both.
pub uninterp spec fn jwt_claims_of(token: Seq<char>, key: Seq<char>) -> Option<
    (Seq<char>, Seq<char>, u64),
>;

/// The fixed `company` claim stamped into every issued credential.
pub open spec fn spec_company() -> Seq<char> {
    "knotes.com"@
}

/// The fixed `company` claim stamped into every issued credential.
pub fn company() -> (r: &'static str)
    ensures
        r@ == spec_company(),
{
    "knotes.com"
}

/// Relies on jsonwebtoken::encode with HS256: the token it returns is signed
/// under `key` and carries exactly the claims handed to it, so decoding it
/// under the same key recovers them. With this algorithm a secret key of any
/// length is accepted and HMAC signing cannot fail, nor can serializing this
/// claim shape, so encoding always succeeds and never panics.
#[verifier::external_body]
fn encode_claims(sub: &str, company: &str, exp: u64, key: &str) -> (r: Result<String, ()>)
    ensures
        r is Ok,
        r is Ok ==> jwt_claims_of((r->Ok_0)@, key@) == Some((sub@, company@, exp)),
{
    let mut claims = serde_json::Map::new();
    claims.insert("sub".to_string(), serde_json::Value::String(sub.to_string()));
    claims.insert("company".to_string(), serde_json::Value::String(company.to_string()));
    claims.insert("exp".to_string(), serde_json::Value::from(exp));
    match jsonwebtoken::encode(
        &jsonwebtoken::Header::default(),
        &serde_json::Value::Object(claims),
        &jsonwebtoken::EncodingKey::from_secret(key.as_bytes()),
    ) {
        Ok(t) => Ok(t),
        Err(_) => Err(()),
    }
}

/// Relies on jsonwebtoken::decode with HS256: it succeeds only on a token
/// whose signature verifies under `key`, and then yields the claims the
/// token carries. Expiry is additionally checked against the clock, so a
/// well-signed token may still be rejected; success is never promised.
#[verifier::external_body]
pub(crate) fn decode_claims(token: &str, key: &str) -> (r: Option<TokenClaims>)
    ensures
        r is Some ==> jwt_claims_of(token@, key@) == Some(
            ((r->Some_0).sub@, (r->Some_0).company@, (r->Some_0).exp),
        ),
        jwt_claims_of(token@, key@) is None ==> r is None,
{
    let validation = jsonwebtoken::Validation::new(jsonwebtoken::Algorithm::HS256);
    let decoding_key = jsonwebtoken::DecodingKey::from_secret(key.as_bytes());
    let data = jsonwebtoken::decode::<serde_json::Value>(token, &decoding_key, &validation).ok()?;
    let sub = data.claims.get("sub")?.as_str()?.to_string();
    let company = data.claims.get("company")?.as_str()?.to_string();
    let exp = data.claims.get("exp")?.as_u64()?;
    Some(TokenClaims { sub, company, exp })
}

/// Mints an access credential for the subject `email`, expiring at `exp`
/// and signed under `key`. Issuing always succeeds for this algorithm; the
/// `Result` stands so that a caller must still treat a failed issuance as
/// aborting whatever registration is in progress.
pub fn create(email: &str, exp: u64, key: &str) -> (r: Result<String, ()>)
    ensures
        r is Ok,
        r matches Ok(t) ==> jwt_claims_of(t@, key@) == Some((email@, spec_company(), exp)),
{
    encode_claims(email, company(), exp, key)
}

/// Whether `token` is a credential this service issued: its signature
/// verifies under `key`, it has not expired, and it carries the fixed
/// `company` claim.
pub fn is_valid(token: &str, key: &str) -> (r: bool)
    ensures
        r ==> (jwt_claims_of(token@, key@) matches Some(c) && c.1 == spec_company()),
        jwt_claims_of(token@, key@) is None ==> !r,
{
    match decode_claims(token, key) {
        Some(c) => crate::str_eq(c.company.as_str(), company()),
        None => false,
    }
}

} // verus!
