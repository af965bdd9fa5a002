use crate::consts::{
    DEFAULT_CODE_VERIFIER_LENGTH, MAX_CODE_VERIFIER_LENGTH, MIN_CODE_VERIFIER_LENGTH,
};
use crate::errors::CodeVerifierError;
use crate::urlsafe::b64::{
    encode_text, encoded_len, is_urlsafe_char, urlsafe_b64encode,
};
use crate::urlsafe::fill_random;
use sha2::Digest;
use vstd::prelude::*;
use vstd::utf8::*;

verus! {

/// The SHA-256 digest of `b`.
pub uninterp spec fn sha256_of(b: Seq<u8>) -> Seq<u8>;

/// Relies on sha2's `Sha256::digest`: the 32-byte SHA-256 digest of the input.
#[verifier::external_body]
fn sha256(bytes: &[u8]) -> (r: Vec<u8>)
    ensures
        r@ == sha256_of(bytes@),
        r@.len() == 32,
{
    sha2::Sha256::digest(bytes).to_vec()
}

/// The length that a request for a code verifier stands for.
pub open spec fn requested_length(length: Option<usize>) -> nat {
    match length {
        Some(n) => n as nat,
        None => DEFAULT_CODE_VERIFIER_LENGTH as nat,
    }
}

/// Whether RFC 7636 allows a code verifier of `n` characters.
pub open spec fn valid_verifier_length(n: nat) -> bool {
    MIN_CODE_VERIFIER_LENGTH <= n <= MAX_CODE_VERIFIER_LENGTH
}

/// How many random bytes a code verifier of `n` characters is drawn from: the
/// fewest whose encoding has at least `n` symbols.
pub open spec fn verifier_bytes(n: nat) -> nat {
    (3 * n + 3) / 4
}

/// The code challenge of a verifier: URL-safe base64 of the SHA-256 digest of
/// its UTF-8 bytes.
pub open spec fn code_challenge_of(verifier: Seq<char>) -> Seq<char> {
    encode_text(sha256_of(encode_utf8(verifier)))
}

/// Generates a code verifier of `length` characters (98 when `None`) from the
/// URL-safe alphabet: the first `length` symbols of the encoding of fresh
/// random bytes.
pub fn gen_code_verifier(length: Option<usize>) -> (r: Result<String, CodeVerifierError>)
    ensures
        r is Ok <==> valid_verifier_length(requested_length(length)),
        match r {
            Ok(s) => {
                &&& s@.len() == requested_length(length)
                &&& forall|i: int| 0 <= i < s@.len() ==> is_urlsafe_char(#[trigger] s@[i])
                &&& exists|b: Seq<u8>|
                    b.len() == verifier_bytes(requested_length(length)) && s@ == encode_text(
                        b,
                    ).subrange(0, requested_length(length) as int)
            },
            Err(e) => e == CodeVerifierError::InvalidLength(requested_length(length) as usize),
        },
{
    let n: usize = match length {
        Some(n) => n,
        None => DEFAULT_CODE_VERIFIER_LENGTH,
    };
    if n < MIN_CODE_VERIFIER_LENGTH || n > MAX_CODE_VERIFIER_LENGTH {
        return Err(CodeVerifierError::InvalidLength(n));
    }
    let k: usize = (3 * n + 3) / 4;
    let mut buf: Vec<u8> = vec![0u8; k];
    fill_random(&mut buf);
    let encoded = urlsafe_b64encode(buf.as_slice());
    assert(encoded_len(k as nat) >= n) by (nonlinear_arith)
        requires
            k == (3 * n + 3) / 4,
    ;
    let s = encoded.as_str().substring_char(0, n).to_owned();
    assert(s@ == encode_text(buf@).subrange(0, n as int));
    Ok(s)
}

/// The code challenge of `code_verifier` (method `S256`).
pub fn gen_code_challenge(code_verifier: &str) -> (r: String)
    ensures
        r@ == code_challenge_of(code_verifier@),
        r@.len() == 43,
{
    let digest = sha256(code_verifier.as_bytes());
    let r = urlsafe_b64encode(digest.as_slice());
    r
}

/// The challenge depends on the verifier's text alone: equal verifiers give
/// equal challenges.
pub proof fn lemma_challenge_deterministic(v1: Seq<char>, v2: Seq<char>)
    requires
        v1 == v2,
    ensures
        code_challenge_of(v1) == code_challenge_of(v2),
{
}

/// A PKCE pair with its method.
pub struct PKCE {
    pub code_verifier: String,
    pub code_challenge: String,
    pub method: String,
}

impl PKCE {
    /// A fresh pair: a verifier of the default length, its challenge, and the
    /// method `S256`.
    pub fn new() -> (r: PKCE)
        ensures
            r.code_verifier@.len() == DEFAULT_CODE_VERIFIER_LENGTH,
            forall|i: int|
                0 <= i < r.code_verifier@.len() ==> is_urlsafe_char(#[trigger] r.code_verifier@[i]),
            r.code_challenge@ == code_challenge_of(r.code_verifier@),
            r.method@ == seq!['S', '2', '5', '6'],
    {
        let code_verifier = match gen_code_verifier(None) {
            Ok(v) => v,
            Err(_) => {
                assert(false);
                String::new()
            },
        };
        let code_challenge = gen_code_challenge(code_verifier.as_str());
        let method = "S256".to_owned();
        proof {
            reveal_strlit("S256");
        }
        PKCE { code_verifier, code_challenge, method }
    }
}

} // verus!
