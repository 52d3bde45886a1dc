//! The flow orchestrator: a state machine that owns one attempt's material,
//! sequences browser hand-off, callback validation and token exchange, and
//! surfaces exactly one outcome per attempt.
use vstd::prelude::*;
use vstd::pervasive::unreached;

use crate::material::AuthAttempt;
use crate::urls::{
    build_authorize_url, build_token_request, parse_url_query, auth_url_chars, token_request_chars,
    url_query_of, ClientConfig, UrlQuery,
};
use crate::validate::{validate, spec_validate, CallbackQuery, ValidationError};

verus! {

/// An access token returned by the provider; the caller owns it.
#[derive(Debug)]
pub struct AccessToken {
    pub secret: String,
}

/// How a token exchange can fail.
#[derive(Debug)]
pub enum ExchangeError {
    /// The token endpoint could not be reached.
    Network,
    /// The provider answered with an error response, carried here.
    Rejected(String),
    /// The provider's response could not be read as a token.
    MalformedResponse,
}

/// Every way one authentication attempt can fail.
#[derive(Debug)]
pub enum AuthError {
    /// An endpoint in the client configuration is not a well-formed URL.
    Config,
    /// The browser could not be opened.
    BrowserLaunch,
    /// No port in the configured set could be bound.
    PortUnavailable,
    /// No callback arrived within the configured bound.
    Timeout,
    /// The callback's `state` did not match the attempt's CSRF token.
    CsrfMismatch,
    /// The callback URL or its query was unusable.
    MalformedCallback,
    /// The token exchange failed.
    Exchange(ExchangeError),
}

/// The states of one attempt. `Succeeded` and `Failed` are terminal: no step
/// accepts them.
#[derive(Debug)]
pub enum FlowState {
    Idle,
    AwaitingCallback,
    /// A callback URL has been delivered and awaits validation.
    Validating(String),
    /// The callback was validated; the token exchange is under way.
    Exchanging,
    Succeeded(AccessToken),
    Failed(AuthError),
}

/// What can happen while the flow awaits the browser redirect.
#[derive(Debug)]
pub enum AwaitEvent {
    /// The listener delivered the raw URL of the one redirect it accepted.
    Callback(String),
    /// The configured wait elapsed with no callback.
    TimedOut,
    /// The browser could not be opened.
    BrowserFailed,
    /// The listener could not bind any configured port.
    PortUnavailable,
}

/// What the token endpoint's answer amounted to.
#[derive(Debug)]
pub enum ExchangeEvent {
    /// A token response carrying this access token secret.
    TokenReceived(String),
    /// An error response from the provider, such as `invalid_grant`.
    Rejected(String),
    /// The endpoint could not be reached.
    NetworkFailed,
    /// The response could not be read as a token.
    MalformedResponse,
}

/// The exchange a validated callback calls for: the authorization code it
/// carried, and the exact token-endpoint request body to send for it.
pub struct TokenRequest {
    pub code: String,
    pub body: String,
}

/// One attempt's orchestrator: its configuration, its fresh cryptographic
/// material, and its current state.
pub struct Flow {
    pub config: ClientConfig,
    pub attempt: AuthAttempt,
    pub state: FlowState,
}

impl Flow {
    pub open spec fn wf(&self) -> bool {
        self.attempt.wf()
    }

    /// A new attempt in the idle state, owning its material exclusively.
    pub fn new(config: ClientConfig, attempt: AuthAttempt) -> (f: Flow)
        requires
            attempt.wf(),
        ensures
            f.wf(),
            f.state is Idle,
            f.config == config,
            f.attempt == attempt,
    {
        Flow { config, attempt, state: FlowState::Idle }
    }

    /// Begins the attempt: checks the configured endpoints and builds the
    /// authorization URL that the browser must be sent to, with the
    /// attempt's CSRF token as `state` and its PKCE challenge. Fails exactly
    /// when an endpoint is not a well-formed URL.
    pub fn start(&mut self, scope: &str) -> (r: Option<String>)
        requires
            old(self).state is Idle,
            old(self).wf(),
        ensures
            final(self).wf(),
            final(self).config == old(self).config,
            final(self).attempt == old(self).attempt,
            match r {
                Some(u) => {
                    &&& url_query_of(old(self).config.auth_url@) is Some
                    &&& url_query_of(old(self).config.token_url@) is Some
                    &&& u@ == auth_url_chars(
                        old(self).config.auth_url@,
                        old(self).config.client_id@,
                        old(self).config.redirect_uri@,
                        scope@,
                        old(self).attempt.csrf_token@,
                        old(self).attempt.pkce_challenge@,
                    )
                    &&& final(self).state is AwaitingCallback
                },
                None => {
                    &&& (url_query_of(old(self).config.auth_url@) is None || url_query_of(
                        old(self).config.token_url@,
                    ) is None)
                    &&& final(self).state matches FlowState::Failed(AuthError::Config)
                },
            },
    {
        let token_endpoint_ok = match parse_url_query(self.config.token_url.as_str()) {
            UrlQuery::Invalid => false,
            _ => true,
        };
        if !token_endpoint_ok {
            self.state = FlowState::Failed(AuthError::Config);
            return None;
        }
        match build_authorize_url(
            &self.config,
            self.attempt.csrf_token.as_str(),
            self.attempt.pkce_challenge.as_str(),
            scope,
        ) {
            Some(u) => {
                self.state = FlowState::AwaitingCallback;
                Some(u)
            },
            None => {
                self.state = FlowState::Failed(AuthError::Config);
                None
            },
        }
    }

    /// Takes the one event of the awaiting phase. A delivered callback moves
    /// the flow to validation; a timeout, a browser failure or an unbindable
    /// port ends the attempt with the matching failure.
    pub fn on_await_event(&mut self, e: AwaitEvent)
        requires
            old(self).state is AwaitingCallback,
            old(self).wf(),
        ensures
            final(self).wf(),
            final(self).config == old(self).config,
            final(self).attempt == old(self).attempt,
            match e {
                AwaitEvent::Callback(url) => final(self).state matches FlowState::Validating(u)
                    && u@ == url@,
                AwaitEvent::TimedOut => final(self).state matches FlowState::Failed(
                    AuthError::Timeout,
                ),
                AwaitEvent::BrowserFailed => final(self).state matches FlowState::Failed(
                    AuthError::BrowserLaunch,
                ),
                AwaitEvent::PortUnavailable => final(self).state matches FlowState::Failed(
                    AuthError::PortUnavailable,
                ),
            },
    {
        self.state = match e {
            AwaitEvent::Callback(url) => FlowState::Validating(url),
            AwaitEvent::TimedOut => FlowState::Failed(AuthError::Timeout),
            AwaitEvent::BrowserFailed => FlowState::Failed(AuthError::BrowserLaunch),
            AwaitEvent::PortUnavailable => FlowState::Failed(AuthError::PortUnavailable),
        };
    }

    /// Validates the delivered callback against this attempt's CSRF token.
    /// On success the flow moves to the exchange and the returned body is
    /// the exact token-endpoint request for the callback's code and this
    /// attempt's PKCE verifier; on any validation failure the attempt ends,
    /// no request is produced, and the exchange is never reached.
    pub fn validate_callback(&mut self) -> (r: Option<TokenRequest>)
        requires
            old(self).state matches FlowState::Validating(_),
            old(self).wf(),
        ensures
            final(self).wf(),
            final(self).config == old(self).config,
            final(self).attempt == old(self).attempt,
            old(self).state matches FlowState::Validating(url) ==> match spec_validate(
                url@,
                old(self).attempt.csrf_token@,
            ) {
                Ok((code, _state)) => {
                    &&& final(self).state is Exchanging
                    &&& r matches Some(req) && req.code@ == code && req.body@
                        == token_request_chars(
                        old(self).config.client_id@,
                        old(self).config.redirect_uri@,
                        code,
                        old(self).attempt.pkce_verifier@,
                    )
                },
                Err(ValidationError::CsrfMismatch) => r is None && final(self).state matches
                    FlowState::Failed(AuthError::CsrfMismatch),
                Err(ValidationError::MalformedCallback) => r is None && final(self).state matches
                    FlowState::Failed(AuthError::MalformedCallback),
            },
    {
        let url: String = match &self.state {
            FlowState::Validating(u) => u.clone(),
            _ => unreached(),
        };
        match validate(url.as_str(), self.attempt.csrf_token.as_str()) {
            Ok(cb) => {
                let body = build_token_request(
                    &self.config,
                    cb.code.as_str(),
                    self.attempt.pkce_verifier.as_str(),
                );
                self.state = FlowState::Exchanging;
                Some(TokenRequest { code: cb.code, body })
            },
            Err(ValidationError::CsrfMismatch) => {
                self.state = FlowState::Failed(AuthError::CsrfMismatch);
                None
            },
            Err(ValidationError::MalformedCallback) => {
                self.state = FlowState::Failed(AuthError::MalformedCallback);
                None
            },
        }
    }

    /// Takes the token endpoint's answer and ends the attempt: a token makes
    /// the flow succeed with exactly that token, every other answer fails it
    /// with the matching exchange error.
    pub fn on_exchange_event(&mut self, e: ExchangeEvent)
        requires
            old(self).state is Exchanging,
            old(self).wf(),
        ensures
            final(self).wf(),
            final(self).config == old(self).config,
            final(self).attempt == old(self).attempt,
            match e {
                ExchangeEvent::TokenReceived(sec) => final(self).state matches FlowState::Succeeded(
                    t,
                ) && t.secret@ == sec@,
                ExchangeEvent::Rejected(d) => final(self).state matches FlowState::Failed(
                    AuthError::Exchange(ExchangeError::Rejected(d2)),
                ) && d2@ == d@,
                ExchangeEvent::NetworkFailed => final(self).state matches FlowState::Failed(
                    AuthError::Exchange(ExchangeError::Network),
                ),
                ExchangeEvent::MalformedResponse => final(self).state matches FlowState::Failed(
                    AuthError::Exchange(ExchangeError::MalformedResponse),
                ),
            },
    {
        self.state = match e {
            ExchangeEvent::TokenReceived(sec) => FlowState::Succeeded(AccessToken { secret: sec }),
            ExchangeEvent::Rejected(d) => FlowState::Failed(
                AuthError::Exchange(ExchangeError::Rejected(d)),
            ),
            ExchangeEvent::NetworkFailed => FlowState::Failed(
                AuthError::Exchange(ExchangeError::Network),
            ),
            ExchangeEvent::MalformedResponse => FlowState::Failed(
                AuthError::Exchange(ExchangeError::MalformedResponse),
            ),
        };
    }
}

} // verus!
