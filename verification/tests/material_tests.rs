use auth_flow::material::{challenge_for, generate};

#[test]
fn material_is_unique_across_attempts() {
    let attempts: Vec<_> = (0..16).map(|_| generate()).collect();
    for i in 0..attempts.len() {
        for j in 0..attempts.len() {
            if i != j {
                assert_ne!(attempts[i].csrf_token, attempts[j].csrf_token);
                assert_ne!(attempts[i].pkce_verifier, attempts[j].pkce_verifier);
            }
        }
    }
}

#[test]
fn material_has_fixed_lengths() {
    let a = generate();
    assert_eq!(a.csrf_token.len(), 22);
    assert_eq!(a.pkce_verifier.len(), 43);
    assert_eq!(a.pkce_challenge.len(), 43);
}

#[test]
fn challenge_is_deterministic() {
    let a = generate();
    let again = challenge_for(&a.pkce_verifier);
    assert_eq!(again, a.pkce_challenge);
    let third = challenge_for(&a.pkce_verifier);
    assert_eq!(third, again);
}

#[test]
fn challenge_differs_from_verifier() {
    let a = generate();
    assert_ne!(a.pkce_challenge, a.pkce_verifier);
}

#[test]
fn challenge_matches_rfc7636_vector() {
    // Appendix B of RFC 7636.
    let verifier = "dBjftJeZ4CVP-mB92K27uhbUJU1p1r_wW1gFWFOEjXk";
    let challenge = challenge_for(verifier);
    assert_eq!(challenge, "E9Melhoa2OwvFrEMTJguCHaoeK1t8URWbuGJSstw-cM");
}

#[test]
fn challenge_accepts_longest_allowed_verifier() {
    // RFC 7636 allows verifiers of up to 128 characters.
    let verifier = "a".repeat(128);
    let challenge = challenge_for(&verifier);
    assert_eq!(challenge.len(), 43);
    assert_ne!(challenge, verifier);
}
