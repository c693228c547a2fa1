//! Authentication of the panel's requests: RS256 JWT bearer tokens.
use vstd::prelude::*;
use crate::text::{chars_of, string_from_chars};

verus! {

#[verifier::external_type_specification]
#[verifier::external_body]
pub struct ExJwtError(jsonwebtoken::errors::Error);

/// The signature algorithms the node accepts.
pub enum SignatureAlgorithm {
    RS256,
}

/// Whether `jsonwebtoken::DecodingKey::from_rsa_pem` accepts `pem`.
pub uninterp spec fn rsa_pem_accepted(pem: Seq<u8>) -> bool;

/// Whether `token` is three dot-separated parts whose header names RS256 and
/// whose signature verifies, over the header and payload parts, under the RSA
/// public key that `DecodingKey::from_rsa_pem` reads from `pem`.
pub uninterp spec fn rs256_signed(token: Seq<char>, pem: Seq<u8>) -> bool;

/// Decodes and validates `token` (`jsonwebtoken::decode::<serde_json::Value>`)
/// with the RSA key read from `key_pem` (`DecodingKey::from_rsa_pem`) and
/// the default validation for `alg` (`Validation::new`).
///
/// Trusted: a key that `from_rsa_pem` refuses is an error; success needs
/// the signature check that `decode` makes before the claims. Whether the
/// claims pass (`exp` against the current time) is not stated.
#[verifier::external_body]
fn jwt_decode(token: &str, key_pem: &[u8], alg: SignatureAlgorithm) -> (r: Result<(), jsonwebtoken::errors::Error>)
    ensures
        !rsa_pem_accepted(key_pem@) ==> r is Err,
        r is Ok ==> rsa_pem_accepted(key_pem@) && rs256_signed(token@, key_pem@),
{
    let key = jsonwebtoken::DecodingKey::from_rsa_pem(key_pem)?;
    let validation = jsonwebtoken::Validation::new(match alg {
        SignatureAlgorithm::RS256 => jsonwebtoken::Algorithm::RS256,
    });
    jsonwebtoken::decode::<serde_json::Value>(token, &key, &validation).map(|_| ())
}

/// Checks that `token` is a valid, unexpired RS256 JWT signed with the key
/// whose PEM is `public_key`.
pub fn validate_token(token: &str, public_key: &str) -> (r: Result<(), jsonwebtoken::errors::Error>)
    ensures
        !rsa_pem_accepted(vstd::utf8::encode_utf8(public_key@)) ==> r is Err,
        r is Ok ==> rsa_pem_accepted(vstd::utf8::encode_utf8(public_key@))
            && rs256_signed(token@, vstd::utf8::encode_utf8(public_key@)),
{
    jwt_decode(token, public_key.as_bytes(), SignatureAlgorithm::RS256)
}

/// The token of an `Authorization` header of the form `Bearer <token>`.
pub open spec fn bearer_token_of(header: Option<Seq<char>>) -> Option<Seq<char>> {
    match header {
        Some(h) => if h.len() >= 7 && h.take(7) == "Bearer "@ { Some(h.skip(7)) } else { None },
        None => None,
    }
}

/// The token of an `Authorization` header of the form `Bearer <token>`.
pub fn bearer_token(header: Option<&str>) -> (r: Option<String>)
    ensures
        match bearer_token_of(match header { Some(h) => Some(h@), None => None }) {
            Some(t) => r matches Some(s) && s@ == t,
            None => r is None,
        },
{
    match header {
        None => None,
        Some(h) => {
            let cs = chars_of(h);
            let prefix = chars_of("Bearer ");
            proof { reveal_strlit("Bearer "); }
            if cs.len() < 7 {
                return None;
            }
            let mut i: usize = 0;
            while i < 7
                invariant
                    i <= 7,
                    cs@ == h@,
                    header == Some(h),
                    cs@.len() >= 7,
                    prefix@ == "Bearer "@,
                    prefix@.len() == 7,
                    forall|j: int| 0 <= j < i ==> cs@[j] == prefix@[j],
                decreases 7 - i,
            {
                if cs[i] != prefix[i] {
                    assert(cs@.take(7)[i as int] != "Bearer "@[i as int]);
                    assert(cs@.take(7) != "Bearer "@);
                    return None;
                }
                i += 1;
            }
            assert(cs@.take(7) =~= "Bearer "@);
            Some(string_from_chars(&cs.as_slice()[7..cs.len()]))
        },
    }
}

/// Whether a request with this `Authorization` header may proceed: it must
/// carry a bearer token that validates against `public_key`.
pub fn authorize(header: Option<&str>, public_key: &str) -> (r: bool)
    ensures
        r ==> (bearer_token_of(match header { Some(h) => Some(h@), None => None }) matches Some(t)
            && rs256_signed(t, vstd::utf8::encode_utf8(public_key@))),
        r ==> rsa_pem_accepted(vstd::utf8::encode_utf8(public_key@)),
{
    match bearer_token(header) {
        None => false,
        Some(token) => validate_token(token.as_str(), public_key).is_ok(),
    }
}

} // verus!
