//! Token issuance and validation.
//!
//! A token is a compact signed document: a claim set, rendered to its
//! canonical byte encoding and hex-armored into a one-member JSON payload,
//! signed with RS256 under an issuer's RSA key.  Signing and signature
//! checking are the trusted library's work; everything around them — the
//! payload rendering and parsing, and the claims round trip — is verified.

use crate::claims::{ClaimModel, CustomClaims};
use crate::hex::{hex_decode, hex_encode, hex_parse, is_hex_text, lemma_hex_of_shape, lemma_hex_parse_of, hex_of};
use crate::strutil::str_to_chars;
use crate::wire::{
    claims_from_bytes, claims_to_bytes, claims_wf, enc_claims, lemma_claims_blob_round_trip,
    parse_claims_blob,
};
use vstd::prelude::*;
use vstd::string::StringExecFns;

verus! {

/// The opening text of a token payload, before the hex-armored claims.
pub open spec fn payload_prefix() -> Seq<char> {
    seq!['{', '"', 'c', 'l', 'a', 'i', 'm', 's', '"', ':', '"']
}

/// The closing text of a token payload, after the hex-armored claims.
pub open spec fn payload_suffix() -> Seq<char> {
    seq!['"', '}']
}

/// The payload a token carries for a claim set: a one-member JSON object
/// whose value is the hex armor of the claim set's byte encoding.
pub open spec fn payload_text(cs: Seq<ClaimModel>) -> Seq<char> {
    payload_prefix() + hex_of(enc_claims(cs)) + payload_suffix()
}

/// The claim set a payload carries, if the payload has the canonical
/// shape and its armor decodes; `None` otherwise.
pub open spec fn payload_claims(s: Seq<char>) -> Option<Seq<ClaimModel>> {
    let n = s.len() as int;
    if n >= 13 && s.subrange(0, 11) == payload_prefix() && s.subrange(n - 2, n)
        == payload_suffix() && is_hex_text(s.subrange(11, n - 2)) {
        parse_claims_blob(hex_parse(s.subrange(11, n - 2)))
    } else {
        None
    }
}

/// Round trip: the payload rendered for a claim set carries exactly that
/// claim set.
pub proof fn lemma_payload_round_trip(cs: Seq<ClaimModel>)
    requires
        claims_wf(cs),
    ensures
        payload_claims(payload_text(cs)) == Some(cs),
{
    let armor = hex_of(enc_claims(cs));
    let s = payload_text(cs);
    lemma_hex_of_shape(enc_claims(cs));
    assert(s.subrange(0, 11) =~= payload_prefix());
    assert(s.subrange(s.len() as int - 2, s.len() as int) =~= payload_suffix());
    assert(s.subrange(11, s.len() as int - 2) =~= armor);
    lemma_hex_parse_of(enc_claims(cs));
    lemma_claims_blob_round_trip(cs);
}

/// The payload format is canonical: a text that parses as a claim set
/// is exactly that claim set's rendering.  No two payload texts carry
/// the same claims.
pub proof fn lemma_payload_canonical(s: Seq<char>)
    requires
        payload_claims(s) is Some,
    ensures
        claims_wf(payload_claims(s).unwrap()),
        s == payload_text(payload_claims(s).unwrap()),
{
    let n = s.len() as int;
    let mid = s.subrange(11, n - 2);
    crate::hex::lemma_hex_of_parse(mid);
    crate::wire::lemma_claims_blob_canonical(hex_parse(mid));
    let cs = payload_claims(s).unwrap();
    assert(hex_of(enc_claims(cs)) == mid);
    assert(s =~= s.subrange(0, 11) + mid + s.subrange(n - 2, n));
}

/// What the trusted signer produces for a payload and a PEM-encoded RSA
/// secret key: the compact signed token, or nothing when the key
/// material cannot sign.  RS256 signing is deterministic, so this is a
/// function of the two texts alone.
pub uninterp spec fn token_of(payload: Seq<char>, sk_pem: Seq<char>) -> Option<Seq<char>>;

/// Whether the trusted validator accepts a token under the RSA public
/// key with the given base64url modulus and exponent.  Validation is
/// deterministic: the same token and key always give the same verdict.
pub uninterp spec fn rs256_accepts(token: Seq<char>, n_b64: Seq<char>, e_b64: Seq<char>) -> bool;

/// The payload text the trusted validator extracts from a token it
/// accepts.  The payload is part of the token itself, so this is a
/// function of the token alone, whichever key accepted it.
pub uninterp spec fn payload_of(token: Seq<char>) -> Seq<char>;

/// Relies on jsonwebtoken's `encode` with RS256: parses the payload as
/// JSON, reads the secret key from PEM, and signs.  Fails exactly when
/// the key material cannot sign (the payloads this crate renders always
/// parse).
#[verifier::external_body]
fn sign_raw(payload: &str, sk_pem: &str) -> (r: Option<String>)
    ensures
        (match r {
            Some(t) => token_of(payload@, sk_pem@) == Some(t@),
            None => token_of(payload@, sk_pem@) is None,
        }),
{
    let value: serde_json::Value = match serde_json::from_str(payload) {
        Ok(v) => v,
        Err(_) => {
            return None;
        },
    };
    let key = match jsonwebtoken::EncodingKey::from_rsa_pem(sk_pem.as_bytes()) {
        Ok(k) => k,
        Err(_) => {
            return None;
        },
    };
    let header = jsonwebtoken::Header::new(jsonwebtoken::Algorithm::RS256);
    jsonwebtoken::encode(&header, &value, &key).ok()
}

/// Relies on jsonwebtoken's `decode` with RS256: checks the token's
/// signature against the key built from the base64url modulus and
/// exponent, with the time-dependent checks disabled, and returns the
/// token's claims JSON on success.  The claims come from the token's own
/// payload segment.
#[verifier::external_body]
fn decode_raw(token: &str, n_b64: &str, e_b64: &str) -> (r: Option<String>)
    ensures
        r is Some <==> rs256_accepts(token@, n_b64@, e_b64@),
        r is Some ==> r.unwrap()@ == payload_of(token@),
{
    let key = match jsonwebtoken::DecodingKey::from_rsa_components(n_b64, e_b64) {
        Ok(k) => k,
        Err(_) => {
            return None;
        },
    };
    let mut validation = jsonwebtoken::Validation::new(jsonwebtoken::Algorithm::RS256);
    validation.validate_exp = false;
    validation.validate_aud = false;
    validation.required_spec_claims.clear();
    match jsonwebtoken::decode::<serde_json::Value>(token, &key, &validation) {
        Ok(data) => Some(data.claims.to_string()),
        Err(_) => None,
    }
}

/// Why issuance failed: the secret key material could not sign.
#[derive(Clone, Copy, Debug, PartialEq, Eq, Structural)]
pub enum IssueError {
    SigningFailure,
}

/// Why validation failed: the token is not a valid signature under the
/// candidate key, or its payload is not a canonical claim set.
#[derive(Clone, Copy, Debug, PartialEq, Eq, Structural)]
pub enum ValidateError {
    SignatureMismatch,
}

/// Whether a candidate key document validates a token: the document
/// yields RSA components, the signature checks under them, and the
/// token's payload carries a canonical claim set.
pub open spec fn candidate_accepts(token: Seq<char>, pk: Seq<char>) -> bool {
    &&& crate::jwk::json_member_of(pk, "n"@) is Some
    &&& crate::jwk::json_member_of(pk, "e"@) is Some
    &&& rs256_accepts(
        token,
        crate::jwk::json_member_of(pk, "n"@).unwrap(),
        crate::jwk::json_member_of(pk, "e"@).unwrap(),
    )
    &&& payload_claims(payload_of(token)) is Some
}

/// Signs a claim set into a token under a PEM-encoded RSA secret key.
/// The payload is the canonical rendering of the claims; issuance fails
/// exactly when the trusted signer rejects the key material.
pub fn generate_token(claims: &CustomClaims, sk_pem: &str) -> (r: Result<String, IssueError>)
    ensures
        (match r {
            Ok(t) => token_of(payload_text(claims@), sk_pem@) == Some(t@),
            Err(_) => token_of(payload_text(claims@), sk_pem@) is None,
        }),
        claims_wf(claims@),
{
    let payload = render_payload(claims);
    match sign_raw(payload.as_str(), sk_pem) {
        Some(t) => Ok(t),
        None => Err(IssueError::SigningFailure),
    }
}

/// Renders the canonical payload for a claim set.
pub fn render_payload(claims: &CustomClaims) -> (r: String)
    ensures
        r@ == payload_text(claims@),
        claims_wf(claims@),
{
    let blob = claims_to_bytes(claims);
    let armor = hex_encode(&blob);
    let mut out = String::new();
    out.append("{\"claims\":\"");
    out.append(armor.as_str());
    out.append("\"}");
    proof {
        reveal_strlit("{\"claims\":\"");
        reveal_strlit("\"}");
        assert(out@ =~= payload_text(claims@));
    }
    out
}

/// Parses a payload back to its claim set; succeeds exactly on the
/// canonical shape.
pub fn parse_payload(s: &str) -> (r: Option<CustomClaims>)
    ensures
        (match r {
            Some(cs) => payload_claims(s@) == Some(cs@),
            None => payload_claims(s@) is None,
        }),
{
    let chars = str_to_chars(s);
    let n = chars.len();
    if n < 13 {
        return None;
    }
    if !(chars[0] == '{' && chars[1] == '"' && chars[2] == 'c' && chars[3] == 'l' && chars[4]
        == 'a' && chars[5] == 'i' && chars[6] == 'm' && chars[7] == 's' && chars[8] == '"'
        && chars[9] == ':' && chars[10] == '"') {
        proof {
            assert(s@.subrange(0, 11) != payload_prefix());
        }
        return None;
    }
    if !(chars[n - 2] == '"' && chars[n - 1] == '}') {
        proof {
            assert(s@.subrange(n as int - 2, n as int) != payload_suffix());
        }
        return None;
    }
    proof {
        assert(s@.subrange(0, 11) =~= payload_prefix());
        assert(s@.subrange(n as int - 2, n as int) =~= payload_suffix());
    }
    let mut mid: Vec<char> = Vec::new();
    let mut i: usize = 11;
    while i < n - 2
        invariant
            n == chars@.len(),
            chars@ == s@,
            13 <= n,
            11 <= i <= n - 2,
            mid@ == s@.subrange(11, i as int),
        decreases n - i,
    {
        mid.push(chars[i]);
        proof {
            assert(s@.subrange(11, i as int + 1) =~= s@.subrange(11, i as int).push(
                s@[i as int],
            ));
        }
        i = i + 1;
    }
    let blob = match hex_decode(&mid) {
        Some(b) => b,
        None => {
            return None;
        },
    };
    match claims_from_bytes(&blob) {
        Some(cs) => Some(cs),
        None => None,
    }
}

/// Checks a token against one candidate public key document and, on
/// success, returns the token's claims.  A pure decision: the same token
/// and key always give the same outcome, and the claims returned are a
/// function of the token alone.
pub fn validate_token_integrity(token: &str, pk_jwk: &str) -> (r: Result<
    CustomClaims,
    ValidateError,
>)
    ensures
        (match r {
            Ok(cs) => candidate_accepts(token@, pk_jwk@) && Some(cs@) == payload_claims(
                payload_of(token@),
            ),
            Err(_) => !candidate_accepts(token@, pk_jwk@),
        }),
{
    let (n_b64, e_b64) = match crate::jwk::rsa_components(pk_jwk) {
        Some(t) => t,
        None => {
            return Err(ValidateError::SignatureMismatch);
        },
    };
    let payload = match decode_raw(token, n_b64.as_str(), e_b64.as_str()) {
        Some(p) => p,
        None => {
            return Err(ValidateError::SignatureMismatch);
        },
    };
    match parse_payload(payload.as_str()) {
        Some(cs) => Ok(cs),
        None => Err(ValidateError::SignatureMismatch),
    }
}

} // verus!
