//! Public keys as JWK documents, and their canonical fingerprints.
//!
//! A public key arrives as a JSON object with at least the members `kty`,
//! `e` and `n`; only those three carry the key's identity.  The
//! fingerprint is a digest of a canonical three-member rendering in the
//! fixed order `e`, `kty`, `n`, base64url-encoded with the padding
//! stripped.  It lets a verifier name the keys of an anonymity set
//! without ever holding private key material.

use crate::strutil::{push_char, str_to_chars};
use vstd::prelude::*;
use vstd::string::StringExecFns;

verus! {

/// What serde_json finds for a member of a JSON document: the member's
/// text with quotes removed, or nothing when the document does not parse
/// or lacks the member.  A function of document and member name alone.
pub uninterp spec fn json_member_of(doc: Seq<char>, field: Seq<char>) -> Option<Seq<char>>;

/// Relies on serde_json: parses the document, looks up the named
/// top-level member, and renders it with the double quotes removed.
#[verifier::external_body]
fn json_member(doc: &str, field: &str) -> (r: Option<String>)
    ensures
        (match r {
            Some(v) => json_member_of(doc@, field@) == Some(v@),
            None => json_member_of(doc@, field@) is None,
        }),
{
    let value: serde_json::Value = match serde_json::from_str(doc) {
        Ok(v) => v,
        Err(_) => {
            return None;
        },
    };
    let member = value.get(field)?;
    Some(member.to_string().replace('"', ""))
}

/// The 32-byte SHA-256 digest of a text, a function of the text alone.
pub uninterp spec fn sha256_text_of(s: Seq<char>) -> Seq<u8>;

/// Relies on sha2's SHA-256: a 32-byte digest of the UTF-8 bytes of the
/// text, the same on every run and every machine.
#[verifier::external_body]
fn sha256_text(s: &str) -> (r: Vec<u8>)
    ensures
        r@ == sha256_text_of(s@),
        r@.len() == 32,
{
    <sha2::Sha256 as sha2::Digest>::digest(s.as_bytes()).to_vec()
}

/// The padded base64url rendering of a byte string, a function of the
/// bytes alone.
pub uninterp spec fn base64url_of(b: Seq<u8>) -> Seq<char>;

/// Relies on base64's URL_SAFE engine: the padded base64url text of the
/// bytes.
#[verifier::external_body]
fn base64url_encode(b: &Vec<u8>) -> (r: String)
    ensures
        r@ == base64url_of(b@),
{
    base64::Engine::encode(&base64::engine::general_purpose::URL_SAFE, b.as_slice())
}

/// The identifying members of a key, in canonical order.
pub ghost struct JwkCore {
    pub e: Seq<char>,
    pub kty: Seq<char>,
    pub n: Seq<char>,
}

/// The canonical three-member rendering that is fingerprinted:
/// `{"e":E,"kty":KTY,"n":N}` with each value quoted, no whitespace.
pub open spec fn fp_canonical(core: JwkCore) -> Seq<char> {
    "{\"e\":\""@ + core.e + "\",\"kty\":\""@ + core.kty + "\",\"n\":\""@ + core.n + "\"}"@
}

/// Base64 text with the `=` padding characters removed.
pub open spec fn strip_pad(s: Seq<char>) -> Seq<char> {
    s.filter(|c: char| c != '=')
}

/// The fingerprint of a key's identifying members.
pub open spec fn fingerprint_of(core: JwkCore) -> Seq<char> {
    strip_pad(base64url_of(sha256_text_of(fp_canonical(core))))
}

/// The member of a JWK that a failed fingerprint computation names.
#[derive(Clone, Copy, Debug, PartialEq, Eq, Structural)]
pub enum JwkField {
    E,
    Kty,
    N,
}

/// Why a fingerprint cannot be computed: a mandatory member is absent
/// (or the document does not parse at all, which leaves every member
/// absent).
#[derive(Clone, Copy, Debug, PartialEq, Eq, Structural)]
pub enum FingerprintError {
    MissingField(JwkField),
}

/// What `compute_fingerprint` returns on a document: the first missing
/// mandatory member, checked in the order `e`, `kty`, `n`, or the
/// fingerprint of the three members.
pub open spec fn fingerprint_outcome(doc: Seq<char>) -> Result<Seq<char>, FingerprintError> {
    match json_member_of(doc, "e"@) {
        None => Err(FingerprintError::MissingField(JwkField::E)),
        Some(e) => match json_member_of(doc, "kty"@) {
            None => Err(FingerprintError::MissingField(JwkField::Kty)),
            Some(kty) => match json_member_of(doc, "n"@) {
                None => Err(FingerprintError::MissingField(JwkField::N)),
                Some(n) => Ok(fingerprint_of(JwkCore { e, kty, n })),
            },
        },
    }
}

/// Computes the canonical fingerprint of a public key document, or names
/// the first mandatory member that is missing.
pub fn compute_fingerprint(jwk: &str) -> (r: Result<String, FingerprintError>)
    ensures
        (match r {
            Ok(fp) => fingerprint_outcome(jwk@) == Ok::<Seq<char>, FingerprintError>(fp@),
            Err(err) => fingerprint_outcome(jwk@) == Err::<Seq<char>, FingerprintError>(err),
        }),
{
    let e = match json_member(jwk, "e") {
        Some(v) => v,
        None => {
            return Err(FingerprintError::MissingField(JwkField::E));
        },
    };
    let kty = match json_member(jwk, "kty") {
        Some(v) => v,
        None => {
            return Err(FingerprintError::MissingField(JwkField::Kty));
        },
    };
    let n = match json_member(jwk, "n") {
        Some(v) => v,
        None => {
            return Err(FingerprintError::MissingField(JwkField::N));
        },
    };
    let ghost core = JwkCore { e: e@, kty: kty@, n: n@ };
    let mut canon = String::new();
    canon.append("{\"e\":\"");
    canon.append(e.as_str());
    canon.append("\",\"kty\":\"");
    canon.append(kty.as_str());
    canon.append("\",\"n\":\"");
    canon.append(n.as_str());
    canon.append("\"}");
    proof {
        assert(canon@ =~= fp_canonical(core));
    }
    let digest = sha256_text(canon.as_str());
    let padded = base64url_encode(&digest);
    let stripped = strip_chars(padded.as_str());
    Ok(stripped)
}

/// Removes every `=` from a text, keeping everything else in order.
fn strip_chars(s: &str) -> (r: String)
    ensures
        r@ == strip_pad(s@),
{
    let chars = str_to_chars(s);
    let mut out = String::new();
    let n = chars.len();
    let mut i: usize = 0;
    proof {
        reveal(Seq::filter);
    }
    while i < n
        invariant
            n == chars@.len(),
            chars@ == s@,
            0 <= i <= n,
            out@ == strip_pad(s@.take(i as int)),
        decreases n - i,
    {
        let c = chars[i];
        if c != '=' {
            push_char(&mut out, c);
        }
        proof {
            reveal(Seq::filter);
            assert(s@.take(i as int + 1).drop_last() =~= s@.take(i as int));
            assert(s@.take(i as int + 1).last() == s@[i as int]);
            assert(out@ =~= strip_pad(s@.take(i as int + 1)));
        }
        i = i + 1;
    }
    proof {
        assert(s@.take(n as int) =~= s@);
    }
    out
}

/// Fingerprint determinism: two key documents whose `e`, `kty` and `n`
/// members agree — whatever else they carry — have the same fingerprint
/// outcome, missing-member errors included.
pub proof fn lemma_fingerprint_deterministic(d1: Seq<char>, d2: Seq<char>)
    requires
        json_member_of(d1, "e"@) == json_member_of(d2, "e"@),
        json_member_of(d1, "kty"@) == json_member_of(d2, "kty"@),
        json_member_of(d1, "n"@) == json_member_of(d2, "n"@),
    ensures
        fingerprint_outcome(d1) == fingerprint_outcome(d2),
{
}

/// The RSA verification components of a key document: the `n` and `e`
/// members, when both are present.
pub fn rsa_components(jwk: &str) -> (r: Option<(String, String)>)
    ensures
        (match r {
            Some(t) => json_member_of(jwk@, "n"@) == Some(t.0@) && json_member_of(jwk@, "e"@)
                == Some(t.1@),
            None => json_member_of(jwk@, "n"@) is None || json_member_of(jwk@, "e"@) is None,
        }),
{
    let n = match json_member(jwk, "n") {
        Some(v) => v,
        None => {
            return None;
        },
    };
    let e = match json_member(jwk, "e") {
        Some(v) => v,
        None => {
            return None;
        },
    };
    Some((n, e))
}

} // verus!
