use relate_mail_core::pkce::generate_code_challenge;
use relate_mail_core::pkce::generate_code_verifier;
use relate_mail_core::pkce::generate_pkce_params;
use relate_mail_core::pkce::generate_state;

#[test]
fn challenge_matches_known_vector() {
    // The verifier/challenge pair from the PKCE specification's example.
    let verifier = "dBjftJeZ4CVP-mB92K27uhbUJU1p1r_wW1gFWFOEjXk";
    assert_eq!(
        generate_code_challenge(verifier),
        "E9Melhoa2OwvFrEMTJguCHaoeK1t8URWbuGJSstw-cM"
    );
}

#[test]
fn challenge_is_deterministic() {
    let verifier = generate_code_verifier();
    let c1 = generate_code_challenge(&verifier);
    let c2 = generate_code_challenge(&verifier);
    assert_eq!(c1, c2);
}

#[test]
fn verifier_is_43_chars_of_urlsafe_base64() {
    let v = generate_code_verifier();
    assert_eq!(v.len(), 43);
    assert!(v.chars().all(|c| c.is_ascii_alphanumeric() || c == '-' || c == '_'));
}

#[test]
fn state_is_22_chars() {
    let s = generate_state();
    assert_eq!(s.len(), 22);
}

#[test]
fn separate_generations_differ() {
    assert_ne!(generate_code_verifier(), generate_code_verifier());
    assert_ne!(generate_state(), generate_state());
}

#[test]
fn pkce_params_are_consistent() {
    let p = generate_pkce_params();
    assert_eq!(p.challenge, generate_code_challenge(&p.verifier));
    assert_eq!(p.verifier.len(), 43);
    assert_eq!(p.state.len(), 22);
}
