//! A browser-delegated OAuth 2.0 Authorization Code flow with PKCE for a
//! desktop application that cannot hold a client secret: per-attempt
//! cryptographic material, the authorization URL, validation of the redirect
//! callback against the attempt's CSRF token, and the token-exchange request,
//! sequenced by a verified state machine that surfaces exactly one outcome
//! per attempt.
pub mod chars;
pub mod encoding;
pub mod flow;
pub mod material;
pub mod query;
pub mod urls;
pub mod validate;
