//! Extraction of the caller's identity from a signed bearer token.

use vstd::prelude::*;

verus! {

/// The claims carried by a valid token.
pub struct Claims {
    pub user_id: i64,
}

/// The user id a token decodes to under a secret, or `None` when the
/// token is not a validly signed token carrying a numeric `user_id`
/// claim. Signature verification is pure computation over the token and
/// the secret, so the result is a function of the two alone.
pub uninterp spec fn jwt_user_id(token: Seq<char>, secret: Seq<u8>) -> Option<i64>;

/// Relies on jsonwebtoken::decode (HS256, expiry not validated): verifies
/// the token's signature against the secret and returns its claims.
#[verifier::external_body]
fn decode_user_id(token: &str, secret: &[u8]) -> (r: Option<i64>)
    ensures
        r == jwt_user_id(token@, secret@),
{
    let key = jsonwebtoken::DecodingKey::from_secret(secret);
    let mut validation = jsonwebtoken::Validation::new(jsonwebtoken::Algorithm::HS256);
    validation.validate_exp = false;
    validation.required_spec_claims = std::collections::HashSet::new();
    match jsonwebtoken::decode::<serde_json::Value>(token, &key, &validation) {
        Ok(data) => data.claims.get("user_id").and_then(|v| v.as_i64()),
        Err(_) => None,
    }
}

/// The claims of a bearer token, or `None` when the token does not
/// verify against the secret.
pub fn get_claims(token: &str, secret: &[u8]) -> (r: Option<Claims>)
    ensures
        r is Some <==> jwt_user_id(token@, secret@) is Some,
        r matches Some(c) ==> jwt_user_id(token@, secret@) == Some(c.user_id),
{
    match decode_user_id(token, secret) {
        Some(user_id) => Some(Claims { user_id }),
        None => None,
    }
}

} // verus!
