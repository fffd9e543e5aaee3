//! RFC 7636 Proof Key for Code Exchange (S256) and CSRF `state` generation.

use crate::text::string_of;
use vstd::prelude::*;
use vstd::string::StringSliceAdditionalSpecFns;

verus! {

/// The SHA-256 digest of `data` (`sha2::Sha256::digest`).
pub uninterp spec fn sha256_digest(data: Seq<u8>) -> Seq<u8>;

/// Base64url text of `data` without padding (`base64::engine::general_purpose::URL_SAFE_NO_PAD`).
pub uninterp spec fn b64url_nopad(data: Seq<u8>) -> Seq<char>;

/// `sha2::Sha256::digest`: the result is the digest named [`sha256_digest`] of the input, 32
/// bytes long.
#[verifier::external_body]
fn sha256(data: &[u8]) -> (r: Vec<u8>)
    ensures
        r@ == sha256_digest(data@),
        r@.len() == 32,
{
    <sha2::Sha256 as sha2::Digest>::digest(data).to_vec()
}

/// A character of the URL-safe base64 alphabet (RFC 4648 §5).
pub open spec fn b64url_char(c: char) -> bool {
    ('A' <= c && c <= 'Z') || ('a' <= c && c <= 'z') || ('0' <= c && c <= '9') || c == '-' || c == '_'
}

/// `URL_SAFE_NO_PAD.encode`: the result is the text named [`b64url_nopad`] of the input, made of
/// the URL-safe alphabet, and without padding four characters for each three bytes, two for a
/// last single byte and three for a last pair (`base64::encoded_len`). The crate panics when
/// that length overflows a `usize`, which these inputs rule out.
#[verifier::external_body]
pub(crate) fn b64url_encode(data: &[u8]) -> (r: String)
    requires
        data@.len() <= usize::MAX / 2,
    ensures
        r@ == b64url_nopad(data@),
        r@.len() == (4 * data@.len() + 2) / 3,
        forall|i: int| 0 <= i < r@.len() ==> b64url_char(#[trigger] r@[i]),
{
    base64::Engine::encode(&base64::engine::general_purpose::URL_SAFE_NO_PAD, data)
}

/// 32 bytes from the operating system's random source (`OsRng::try_fill_bytes`), or `None`
/// when that source fails. Nothing else is claimed of them.
#[verifier::external_body]
fn random_32() -> (r: Option<Vec<u8>>)
    ensures
        r matches Some(b) ==> b@.len() == 32,
{
    let mut b = [0u8; 32];
    rand::RngCore::try_fill_bytes(&mut rand::rngs::OsRng, &mut b).ok()?;
    Some(b.to_vec())
}

/// 24 bytes from the operating system's random source (`OsRng::try_fill_bytes`), or `None`
/// when that source fails. Nothing else is claimed of them.
#[verifier::external_body]
fn random_24() -> (r: Option<Vec<u8>>)
    ensures
        r matches Some(b) ==> b@.len() == 24,
{
    let mut b = [0u8; 24];
    rand::RngCore::try_fill_bytes(&mut rand::rngs::OsRng, &mut b).ok()?;
    Some(b.to_vec())
}

/// `BASE64URL-ENCODE(SHA256(ASCII(code_verifier)))`.
pub open spec fn challenge_spec(verifier: Seq<u8>) -> Seq<char> {
    b64url_nopad(sha256_digest(verifier))
}

/// An unreserved character of RFC 3986, the characters a PKCE verifier is made of.
pub open spec fn unreserved(c: char) -> bool {
    ('A' <= c && c <= 'Z') || ('a' <= c && c <= 'z') || ('0' <= c && c <= '9') || c == '-' || c == '.'
        || c == '_' || c == '~'
}

/// A PKCE code verifier as RFC 7636 §4.1 defines it: 43 to 128 unreserved characters.
pub open spec fn valid_verifier(v: Seq<char>) -> bool {
    43 <= v.len() <= 128 && forall|i: int| 0 <= i < v.len() ==> unreserved(#[trigger] v[i])
}

/// A PKCE verifier (43..=128 unreserved characters) and its S256 challenge.
#[derive(Clone, Debug, PartialEq, Eq)]
pub struct Pkce {
    pub verifier: String,
    pub challenge: String,
}

/// The S256 challenge for a verifier.
pub fn challenge_for(verifier: &str) -> (r: String)
    ensures
        r@ == challenge_spec(verifier.spec_bytes()),
        r@.len() == 43,
{
    let d = sha256(verifier.as_bytes());
    b64url_encode(d.as_slice())
}

/// Random opaque value bound to one authorization request: 24 random bytes, base64url; `None`
/// when the operating system's random source fails.
pub fn random_state() -> (r: Option<String>)
    ensures
        r matches Some(t) ==> {
            &&& exists|b: Seq<u8>| b.len() == 24 && t@ == b64url_nopad(b)
            &&& t@.len() == 32
            &&& forall|i: int| 0 <= i < t@.len() ==> b64url_char(#[trigger] t@[i])
        },
{
    match random_24() {
        Some(b) => Some(b64url_encode(b.as_slice())),
        None => None,
    }
}

impl Pkce {
    /// 32 random bytes as a base64url verifier, and its challenge; `None` when the operating
    /// system's random source fails.
    pub fn generate() -> (r: Option<Self>)
        ensures
            r matches Some(p) ==> {
                &&& exists|b: Seq<u8>| b.len() == 32 && p.verifier@ == b64url_nopad(b)
                &&& p.verifier@.len() == 43
                &&& valid_verifier(p.verifier@)
                &&& p.challenge@ == challenge_spec(vstd::utf8::encode_utf8(p.verifier@))
            },
    {
        let b = match random_32() {
            Some(b) => b,
            None => return None,
        };
        let v = b64url_encode(b.as_slice());
        assert forall|i: int| 0 <= i < v@.len() implies unreserved(#[trigger] v@[i]) by {
            assert(b64url_char(v@[i]));
        }
        let challenge = challenge_for(v.as_str());
        Some(Pkce { verifier: v, challenge })
    }

    /// Build from a known verifier (tests / RFC vectors).
    pub fn from_verifier(verifier: &str) -> (r: Self)
        requires
            43 <= verifier.spec_bytes().len() <= 128,
        ensures
            r.verifier@ == verifier@,
            r.challenge@ == challenge_spec(verifier.spec_bytes()),
    {
        let challenge = challenge_for(verifier);
        Pkce { verifier: verifier.to_owned(), challenge }
    }
}

} // verus!
