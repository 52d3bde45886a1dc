//! Per-attempt cryptographic material: a CSRF token and a PKCE
//! verifier/challenge pair, generated through the oauth2 crate.
use vstd::prelude::*;

verus! {

/// The PKCE challenge derived from a verifier: the base64url encoding,
/// without padding, of the SHA-256 digest of the verifier's bytes. The
/// derivation is a function of the verifier alone.
pub uninterp spec fn challenge_of(verifier: Seq<char>) -> Seq<char>;

/// Relies on oauth2::PkceCodeChallenge::new_random_sha256: 32 random bytes
/// become a 43-character base64url verifier, and the challenge returned with
/// it is derived from that verifier by SHA-256 and base64url.
#[verifier::external_body]
fn fresh_pkce_pair() -> (r: (String, String))
    ensures
        r.1@ == challenge_of(r.0@),
        r.0@.len() == 43,
        r.1@.len() == 43,
{
    let (challenge, verifier) = oauth2::PkceCodeChallenge::new_random_sha256();
    (verifier.secret().clone(), challenge.as_str().to_string())
}

/// Relies on oauth2::CsrfToken::new_random: 16 random bytes, base64url
/// encoded without padding, which is always 22 characters.
#[verifier::external_body]
fn fresh_csrf() -> (r: String)
    ensures
        r@.len() == 22,
{
    oauth2::CsrfToken::new_random().secret().clone()
}

/// Relies on oauth2::PkceCodeChallenge::from_code_verifier_sha256, which
/// derives the challenge from the verifier's bytes alone; it panics unless
/// the verifier is 43 to 128 bytes long, which the requires rules out.
#[verifier::external_body]
fn derive_challenge_raw(verifier: &str) -> (r: String)
    requires
        vstd::string::is_ascii(verifier),
        43 <= verifier@.len() <= 128,
    ensures
        r@ == challenge_of(verifier@),
        r@.len() == 43,
{
    let v = oauth2::PkceCodeVerifier::new(verifier.to_string());
    oauth2::PkceCodeChallenge::from_code_verifier_sha256(&v).as_str().to_string()
}

/// The cryptographic material of one authentication attempt, generated fresh
/// per attempt and never reused.
pub struct AuthAttempt {
    pub csrf_token: String,
    pub pkce_verifier: String,
    pub pkce_challenge: String,
}

impl AuthAttempt {
    /// The challenge belongs to the verifier, and each piece has the length
    /// its generator fixes.
    pub open spec fn wf(&self) -> bool {
        &&& self.pkce_challenge@ == challenge_of(self.pkce_verifier@)
        &&& self.csrf_token@.len() == 22
        &&& self.pkce_verifier@.len() == 43
        &&& self.pkce_challenge@.len() == 43
    }
}

/// Generates the material for one attempt: a fresh CSRF token and a fresh
/// PKCE verifier with its derived challenge.
pub fn generate() -> (a: AuthAttempt)
    ensures
        a.wf(),
{
    let csrf = fresh_csrf();
    let (verifier, challenge) = fresh_pkce_pair();
    AuthAttempt { csrf_token: csrf, pkce_verifier: verifier, pkce_challenge: challenge }
}

/// Derives the PKCE challenge of a given verifier.
pub fn challenge_for(verifier: &str) -> (r: String)
    requires
        vstd::string::is_ascii(verifier),
        43 <= verifier@.len() <= 128,
    ensures
        r@ == challenge_of(verifier@),
{
    derive_challenge_raw(verifier)
}

/// Law: the PKCE challenge is deterministic — it depends on the verifier
/// alone, so equal verifiers always yield equal challenges.
pub proof fn lemma_challenge_deterministic(v1: Seq<char>, v2: Seq<char>)
    requires
        v1 == v2,
    ensures
        challenge_of(v1) == challenge_of(v2),
{
}

} // verus!
