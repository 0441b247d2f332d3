//! PKCE parameter generation: a random verifier, its derived challenge, and a
//! random anti-forgery state value, all URL-safe base64 without padding.

use vstd::prelude::*;
use vstd::utf8::encode_utf8;
use base64::Engine;
use rand::Rng;
use sha2::Digest;

verus! {

/// What SHA-256 returns for a byte sequence; a function of the bytes alone.
pub uninterp spec fn sha256_of(bytes: Seq<u8>) -> Seq<u8>;

/// What the URL-safe unpadded base64 encoding returns for a byte sequence; a
/// function of the bytes alone.
pub uninterp spec fn b64url_of(bytes: Seq<u8>) -> Seq<char>;

/// A char of the URL-safe base64 alphabet.
pub open spec fn is_b64url_char(c: char) -> bool {
    ('A' <= c && c <= 'Z') || ('a' <= c && c <= 'z') || ('0' <= c && c <= '9') || c == '-' || c
        == '_'
}

/// Relies on rand's thread_rng and Rng::gen: `n` bytes from the thread-local
/// cryptographically secure generator. Nothing is assumed about their values.
#[verifier::external_body]
fn random_bytes(n: usize) -> (r: Vec<u8>)
    ensures
        r@.len() == n,
{
    let mut rng = rand::thread_rng();
    let mut v: Vec<u8> = Vec::with_capacity(n);
    for _ in 0..n {
        v.push(rng.gen::<u8>());
    }
    v
}

/// Relies on sha2's Sha256::digest: a 32-byte digest that depends on the
/// input bytes alone.
#[verifier::external_body]
fn sha256(data: &[u8]) -> (r: Vec<u8>)
    ensures
        r@ == sha256_of(data@),
        r@.len() == 32,
{
    sha2::Sha256::digest(data).to_vec()
}

/// Relies on base64's URL_SAFE_NO_PAD engine: the URL-safe unpadded encoding
/// of the input, a function of the input bytes alone; an unpadded encoding
/// writes four characters per three bytes, a final byte as two and two final
/// bytes as three, all from the URL-safe alphabet.
#[verifier::external_body]
fn b64url_encode(data: &[u8]) -> (r: String)
    ensures
        r@ == b64url_of(data@),
        r@.len() == (data@.len() * 4 + 2) / 3,
        forall|i: int| 0 <= i < r@.len() ==> is_b64url_char(#[trigger] r@[i]),
{
    base64::engine::general_purpose::URL_SAFE_NO_PAD.encode(data)
}

/// The challenge that belongs to a verifier: URL-safe unpadded base64 of the
/// SHA-256 of the verifier's UTF-8 bytes.
pub open spec fn challenge_spec(verifier: Seq<char>) -> Seq<char> {
    b64url_of(sha256_of(encode_utf8(verifier)))
}

/// A fresh 32-byte random verifier, URL-safe base64 without padding.
pub fn generate_code_verifier() -> (r: String)
    ensures
        r@.len() == 43,
        exists|bytes: Seq<u8>| bytes.len() == 32 && r@ == b64url_of(bytes),
        forall|i: int| 0 <= i < r@.len() ==> is_b64url_char(#[trigger] r@[i]),
{
    let bytes = random_bytes(32);
    let r = b64url_encode(bytes.as_slice());
    proof {
        assert(bytes@.len() == 32 && r@ == b64url_of(bytes@));
    }
    r
}

/// The challenge of a verifier; deterministic in the verifier.
pub fn generate_code_challenge(verifier: &str) -> (r: String)
    ensures
        r@ == challenge_spec(verifier@),
        r@.len() == 43,
        forall|i: int| 0 <= i < r@.len() ==> is_b64url_char(#[trigger] r@[i]),
{
    let hash = sha256(verifier.as_bytes());
    b64url_encode(hash.as_slice())
}

/// A fresh 16-byte random state value, URL-safe base64 without padding.
pub fn generate_state() -> (r: String)
    ensures
        r@.len() == 22,
        exists|bytes: Seq<u8>| bytes.len() == 16 && r@ == b64url_of(bytes),
        forall|i: int| 0 <= i < r@.len() ==> is_b64url_char(#[trigger] r@[i]),
{
    let bytes = random_bytes(16);
    let r = b64url_encode(bytes.as_slice());
    proof {
        assert(bytes@.len() == 16 && r@ == b64url_of(bytes@));
    }
    r
}

/// The ephemeral parameters of one authorization attempt; generated fresh per
/// attempt and never persisted.
pub struct PkceParams {
    pub verifier: String,
    pub challenge: String,
    pub state: String,
}

impl PkceParams {
    /// The challenge is exactly the one derived from the verifier.
    pub open spec fn wf(&self) -> bool {
        self.challenge@ == challenge_spec(self.verifier@)
    }
}

/// Fresh PKCE parameters: random verifier, its challenge, random state.
pub fn generate_pkce_params() -> (r: PkceParams)
    ensures
        r.wf(),
        r.verifier@.len() == 43,
        r.state@.len() == 22,
{
    let verifier = generate_code_verifier();
    let challenge = generate_code_challenge(verifier.as_str());
    let state = generate_state();
    PkceParams { verifier, challenge, state }
}

/// The challenge of a verifier is a function of the verifier alone:
/// recomputing it for the same verifier always yields the same value.
pub proof fn lemma_challenge_deterministic(v1: Seq<char>, v2: Seq<char>)
    requires
        v1 == v2,
    ensures
        challenge_spec(v1) == challenge_spec(v2),
{
}

} // verus!
