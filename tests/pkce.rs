use oauth2_utils::errors::CodeVerifierError;
use oauth2_utils::pkce::{gen_code_challenge, gen_code_verifier, PKCE};
use oauth2_utils::urlsafe::urlsafe_token;

fn is_urlsafe(s: &str) -> bool {
    s.chars().all(|c| c.is_ascii_alphanumeric() || c == '-' || c == '_')
}

#[test]
fn challenge_of_rfc7636_verifier() {
    let verifier = "dBjftJeZ4CVP-mB92K27uhbUJU1p1r_wW1gFWFOEjXk";
    assert_eq!(gen_code_challenge(verifier), "E9Melhoa2OwvFrEMTJguCHaoeK1t8URWbuGJSstw-cM");
}

#[test]
fn challenge_is_deterministic() {
    let verifier = gen_code_verifier(Some(64)).unwrap();
    let first = gen_code_challenge(&verifier);
    let second = gen_code_challenge(&verifier.clone());
    assert_eq!(first, second);
    assert_eq!(first.len(), 43);
}

#[test]
fn verifier_lengths_in_bounds() {
    for n in 43..=128usize {
        let v = gen_code_verifier(Some(n)).unwrap();
        assert_eq!(v.len(), n);
        assert!(is_urlsafe(&v));
    }
}

#[test]
fn verifier_lengths_out_of_bounds() {
    assert_eq!(gen_code_verifier(Some(42)), Err(CodeVerifierError::InvalidLength(42)));
    assert_eq!(gen_code_verifier(Some(129)), Err(CodeVerifierError::InvalidLength(129)));
    assert_eq!(gen_code_verifier(Some(0)), Err(CodeVerifierError::InvalidLength(0)));
}

#[test]
fn verifier_default_length() {
    assert_eq!(gen_code_verifier(None).unwrap().len(), 98);
}

#[test]
fn pkce_pair() {
    let pkce = PKCE::new();
    assert_eq!(pkce.code_verifier.len(), 98);
    assert!(is_urlsafe(&pkce.code_verifier));
    assert_eq!(pkce.code_challenge, gen_code_challenge(&pkce.code_verifier));
    assert_eq!(pkce.method, "S256");
}

#[test]
fn token_of_32_bytes() {
    let token = urlsafe_token(32);
    assert_eq!(token.len(), 43);
    assert!(!token.contains('+') && !token.contains('/') && !token.contains('='));
    assert!(is_urlsafe(&token));
}

#[test]
fn token_of_zero_bytes() {
    assert_eq!(urlsafe_token(0), "");
}
