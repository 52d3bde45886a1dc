use auth_flow::flow::{AuthError, AwaitEvent, ExchangeError, ExchangeEvent, Flow, FlowState};
use auth_flow::material::generate;
use auth_flow::urls::ClientConfig;

fn test_config() -> ClientConfig {
    ClientConfig {
        client_id: "my-app".to_string(),
        auth_url: "https://idp.example/authorize".to_string(),
        token_url: "https://idp.example/token".to_string(),
        redirect_uri: "http://localhost:45000".to_string(),
    }
}

#[test]
fn start_builds_exact_authorization_url() {
    let attempt = generate();
    let csrf = attempt.csrf_token.clone();
    let challenge = attempt.pkce_challenge.clone();
    let mut flow = Flow::new(test_config(), attempt);
    let url = flow.start("openid").expect("valid config must start");
    let expected = format!(
        "https://idp.example/authorize?response_type=code&client_id=my-app\
         &redirect_uri=http%3A%2F%2Flocalhost%3A45000&scope=openid\
         &state={csrf}&code_challenge={challenge}&code_challenge_method=S256"
    );
    assert_eq!(url, expected);
    assert!(matches!(flow.state, FlowState::AwaitingCallback));
}

#[test]
fn start_rejects_malformed_auth_endpoint() {
    let mut cfg = test_config();
    cfg.auth_url = "no scheme here".to_string();
    let mut flow = Flow::new(cfg, generate());
    assert!(flow.start("openid").is_none());
    assert!(matches!(flow.state, FlowState::Failed(AuthError::Config)));
}

#[test]
fn start_rejects_malformed_token_endpoint() {
    let mut cfg = test_config();
    cfg.token_url = "also not a url".to_string();
    let mut flow = Flow::new(cfg, generate());
    assert!(flow.start("openid").is_none());
    assert!(matches!(flow.state, FlowState::Failed(AuthError::Config)));
}

#[test]
fn valid_callback_reaches_succeeded_with_token() {
    let attempt = generate();
    let csrf = attempt.csrf_token.clone();
    let verifier = attempt.pkce_verifier.clone();
    let mut flow = Flow::new(test_config(), attempt);
    flow.start("openid").expect("valid config must start");
    let callback = format!("http://localhost:45000/?code=abc123&state={csrf}");
    flow.on_await_event(AwaitEvent::Callback(callback));
    assert!(matches!(flow.state, FlowState::Validating(_)));
    let req = flow.validate_callback().expect("a matching callback validates");
    assert_eq!(req.code, "abc123");
    let expected_body = format!(
        "grant_type=authorization_code&code=abc123\
         &redirect_uri=http%3A%2F%2Flocalhost%3A45000&client_id=my-app\
         &code_verifier={verifier}"
    );
    assert_eq!(req.body, expected_body);
    assert!(matches!(flow.state, FlowState::Exchanging));
    // The mocked token endpoint answers with a token.
    flow.on_exchange_event(ExchangeEvent::TokenReceived("tok-secret-1".to_string()));
    match &flow.state {
        FlowState::Succeeded(token) => assert_eq!(token.secret, "tok-secret-1"),
        other => panic!("expected success, reached {other:?}"),
    }
}

#[test]
fn mismatched_state_fails_without_exchange() {
    let attempt = generate();
    let mut flow = Flow::new(test_config(), attempt);
    flow.start("openid").expect("valid config must start");
    let callback = "http://localhost:45000/?code=abc123&state=forged".to_string();
    flow.on_await_event(AwaitEvent::Callback(callback));
    // No token request comes back: the exchanger is never invoked.
    assert!(flow.validate_callback().is_none());
    assert!(matches!(
        flow.state,
        FlowState::Failed(AuthError::CsrfMismatch)
    ));
}

#[test]
fn malformed_callback_fails() {
    let mut flow = Flow::new(test_config(), generate());
    flow.start("openid").expect("valid config must start");
    flow.on_await_event(AwaitEvent::Callback(
        "http://localhost:45000/".to_string(),
    ));
    assert!(flow.validate_callback().is_none());
    assert!(matches!(
        flow.state,
        FlowState::Failed(AuthError::MalformedCallback)
    ));
}

#[test]
fn timeout_fails_the_attempt() {
    let mut flow = Flow::new(test_config(), generate());
    flow.start("openid").expect("valid config must start");
    flow.on_await_event(AwaitEvent::TimedOut);
    assert!(matches!(flow.state, FlowState::Failed(AuthError::Timeout)));
}

#[test]
fn browser_failure_fails_the_attempt() {
    let mut flow = Flow::new(test_config(), generate());
    flow.start("openid").expect("valid config must start");
    flow.on_await_event(AwaitEvent::BrowserFailed);
    assert!(matches!(
        flow.state,
        FlowState::Failed(AuthError::BrowserLaunch)
    ));
}

#[test]
fn unbindable_port_fails_the_attempt() {
    let mut flow = Flow::new(test_config(), generate());
    flow.start("openid").expect("valid config must start");
    flow.on_await_event(AwaitEvent::PortUnavailable);
    assert!(matches!(
        flow.state,
        FlowState::Failed(AuthError::PortUnavailable)
    ));
}

#[test]
fn rejected_exchange_fails_with_provider_error() {
    let attempt = generate();
    let csrf = attempt.csrf_token.clone();
    let mut flow = Flow::new(test_config(), attempt);
    flow.start("openid").expect("valid config must start");
    let callback = format!("http://localhost:45000/?code=abc123&state={csrf}");
    flow.on_await_event(AwaitEvent::Callback(callback));
    flow.validate_callback().expect("a matching callback validates");
    flow.on_exchange_event(ExchangeEvent::Rejected("invalid_grant".to_string()));
    match &flow.state {
        FlowState::Failed(AuthError::Exchange(ExchangeError::Rejected(detail))) => {
            assert_eq!(detail, "invalid_grant")
        },
        other => panic!("expected a rejected exchange, reached {other:?}"),
    }
}

#[test]
fn network_failure_fails_the_exchange() {
    let attempt = generate();
    let csrf = attempt.csrf_token.clone();
    let mut flow = Flow::new(test_config(), attempt);
    flow.start("openid").expect("valid config must start");
    flow.on_await_event(AwaitEvent::Callback(format!(
        "http://localhost:45000/?code=abc123&state={csrf}"
    )));
    flow.validate_callback().expect("a matching callback validates");
    flow.on_exchange_event(ExchangeEvent::NetworkFailed);
    assert!(matches!(
        flow.state,
        FlowState::Failed(AuthError::Exchange(ExchangeError::Network))
    ));
}

#[test]
fn unreadable_response_fails_the_exchange() {
    let attempt = generate();
    let csrf = attempt.csrf_token.clone();
    let mut flow = Flow::new(test_config(), attempt);
    flow.start("openid").expect("valid config must start");
    flow.on_await_event(AwaitEvent::Callback(format!(
        "http://localhost:45000/?code=abc123&state={csrf}"
    )));
    flow.validate_callback().expect("a matching callback validates");
    flow.on_exchange_event(ExchangeEvent::MalformedResponse);
    assert!(matches!(
        flow.state,
        FlowState::Failed(AuthError::Exchange(ExchangeError::MalformedResponse))
    ));
}

#[test]
fn auth_endpoint_with_query_joins_with_ampersand() {
    let attempt = generate();
    let csrf = attempt.csrf_token.clone();
    let challenge = attempt.pkce_challenge.clone();
    let mut cfg = test_config();
    cfg.auth_url = "https://idp.example/authorize?tenant=t1".to_string();
    let mut flow = Flow::new(cfg, attempt);
    let url = flow.start("openid profile").expect("valid config must start");
    let expected = format!(
        "https://idp.example/authorize?tenant=t1&response_type=code&client_id=my-app\
         &redirect_uri=http%3A%2F%2Flocalhost%3A45000&scope=openid%20profile\
         &state={csrf}&code_challenge={challenge}&code_challenge_method=S256"
    );
    assert_eq!(url, expected);
}
