use relate_mail_core::callback::callback_http_response;
use relate_mail_core::callback::parse_callback_request;
use relate_mail_core::errors::OidcError;
use relate_mail_core::flow::begin_auth_session;
use relate_mail_core::flow::step_auth_session;
use relate_mail_core::flow::validate_auth_callback;
use relate_mail_core::flow::AuthAction;
use relate_mail_core::flow::AuthEvent;
use relate_mail_core::flow::AuthSession;
use relate_mail_core::flow::FlowState;
use relate_mail_core::flow::TokenResponse;
use relate_mail_core::pkce::generate_pkce_params;

fn session_awaiting_callback(expected_state: &str) -> AuthSession {
    AuthSession {
        state: FlowState::AwaitingCallback,
        client_id: "app1".to_string(),
        scope: "openid profile email".to_string(),
        verifier: "v".to_string(),
        challenge: "c".to_string(),
        expected_state: expected_state.to_string(),
        authorization_endpoint: "https://idp.example/authorize".to_string(),
        token_endpoint: "https://idp.example/token".to_string(),
        listener_held: true,
    }
}

#[test]
fn state_mismatch_aborts_before_token_exchange() {
    let session = session_awaiting_callback("abc");
    let ev = AuthEvent::Callback {
        code: Some("somecode".to_string()),
        state: "xyz".to_string(),
        error: None,
    };
    let (session, action) = step_auth_session(session, ev);
    assert!(matches!(action, AuthAction::Validate));
    let (session, action) = validate_auth_callback(session);
    match &session.state {
        FlowState::Failed { error } => {
            assert_eq!(error.message(), "Authentication failed: State mismatch");
        }
        _ => panic!("expected a failed session"),
    }
    assert!(!matches!(action, AuthAction::ExchangeCode { .. }));
    assert!(!session.listener_held);
}

#[test]
fn timeout_releases_listener() {
    let session = session_awaiting_callback("abc");
    assert!(session.listener_held);
    let (session, _) = step_auth_session(session, AuthEvent::TimeoutExpired);
    assert!(matches!(session.state, FlowState::TimedOut));
    // The listener is released, so a following attempt can bind the port.
    assert!(!session.listener_held);
}

#[test]
fn provider_error_fails_flow() {
    let session = session_awaiting_callback("abc");
    let ev = AuthEvent::Callback {
        code: None,
        state: String::new(),
        error: Some("access_denied".to_string()),
    };
    let (session, _) = step_auth_session(session, ev);
    match &session.state {
        FlowState::Failed { error } => {
            assert_eq!(
                error.message(),
                "Authentication failed: OIDC error: access_denied"
            );
        }
        _ => panic!("expected a failed session"),
    }
}

#[test]
fn missing_code_fails_flow() {
    let session = session_awaiting_callback("abc");
    let ev = AuthEvent::Callback { code: None, state: String::new(), error: None };
    let (session, _) = step_auth_session(session, ev);
    match &session.state {
        FlowState::Failed { error } => {
            assert_eq!(
                error.message(),
                "Authentication failed: No authorization code received"
            );
        }
        _ => panic!("expected a failed session"),
    }
}

#[test]
fn unexpected_event_fails_flow() {
    let session = session_awaiting_callback("abc");
    let (session, _) = step_auth_session(session, AuthEvent::ListenerReady);
    assert!(matches!(session.state, FlowState::Failed { .. }));
    assert!(!session.listener_held);
}

#[test]
fn end_to_end_authorization_flow() {
    let pkce = generate_pkce_params();
    let (session, action) = begin_auth_session(
        "https://idp.example/",
        "app1".to_string(),
        None,
        pkce,
    );
    match &action {
        AuthAction::FetchDiscovery { url } => {
            assert_eq!(url, "https://idp.example/.well-known/openid-configuration");
        }
        _ => panic!("expected a discovery fetch"),
    }

    let ev = AuthEvent::DiscoveryDocument {
        authorization_endpoint: "https://idp.example/authorize".to_string(),
        token_endpoint: "https://idp.example/token".to_string(),
    };
    let (session, action) = step_auth_session(session, ev);
    match &action {
        AuthAction::BindListener { port } => assert_eq!(*port, 23847),
        _ => panic!("expected a bind"),
    }

    let (session, action) = step_auth_session(session, AuthEvent::ListenerReady);
    let expected_url = format!(
        "https://idp.example/authorize?response_type=code&client_id=app1&redirect_uri=http%3A%2F%2F127.0.0.1%3A23847%2Fauth%2Fcallback&scope=openid%20profile%20email&state={}&code_challenge={}&code_challenge_method=S256",
        session.expected_state, session.challenge
    );
    match &action {
        AuthAction::OpenBrowser { url } => assert_eq!(url, &expected_url),
        _ => panic!("expected a browser launch"),
    }
    assert!(session.listener_held);

    let (session, action) = step_auth_session(session, AuthEvent::BrowserLaunched);
    match &action {
        AuthAction::AwaitCallback { timeout_secs } => assert_eq!(*timeout_secs, 300),
        _ => panic!("expected an awaited callback"),
    }

    // The redirect arrives at the listener as a raw HTTP request.
    let raw = format!(
        "GET /auth/callback?code=XYZ&state={} HTTP/1.1\r\nHost: 127.0.0.1\r\n\r\n",
        session.expected_state
    );
    let parsed = parse_callback_request(&raw);
    assert_eq!(parsed.code, Some("XYZ".to_string()));
    let ev = AuthEvent::Callback { code: parsed.code, state: parsed.state, error: parsed.error };
    let (session, action) = step_auth_session(session, ev);
    assert!(matches!(action, AuthAction::Validate));

    let (session, action) = validate_auth_callback(session);
    match &action {
        AuthAction::ExchangeCode { token_endpoint, params } => {
            assert_eq!(token_endpoint, "https://idp.example/token");
            assert_eq!(params[0], ("grant_type".to_string(), "authorization_code".to_string()));
            assert_eq!(params[1], ("code".to_string(), "XYZ".to_string()));
            assert_eq!(
                params[2],
                ("redirect_uri".to_string(), "http://127.0.0.1:23847/auth/callback".to_string())
            );
            assert_eq!(params[3], ("client_id".to_string(), "app1".to_string()));
            assert_eq!(params[4].0, "code_verifier");
            assert_eq!(params[4].1, session.verifier);
        }
        _ => panic!("expected a token exchange"),
    }

    let tokens = TokenResponse {
        access_token: "AT1".to_string(),
        id_token: None,
        refresh_token: None,
        expires_in: None,
        token_type: None,
    };
    let (session, _) = step_auth_session(session, AuthEvent::TokenSuccess { tokens });
    match &session.state {
        FlowState::Complete { tokens } => assert_eq!(tokens.access_token, "AT1"),
        _ => panic!("expected a complete session"),
    }
    assert!(!session.listener_held);
}

#[test]
fn token_http_failure_message_carries_status_and_body() {
    let mut session = session_awaiting_callback("abc");
    session.state = FlowState::ExchangingToken;
    let ev = AuthEvent::TokenHttpFailure { status: 400, body: "bad grant".to_string() };
    let (session, _) = step_auth_session(session, ev);
    match &session.state {
        FlowState::Failed { error } => {
            assert_eq!(
                error.message(),
                "Token exchange failed: Token endpoint returned HTTP 400: bad grant"
            );
        }
        _ => panic!("expected a failed session"),
    }
}

#[test]
fn terminal_state_absorbs_events() {
    let mut session = session_awaiting_callback("abc");
    session.state = FlowState::TimedOut;
    session.listener_held = false;
    let (session, action) = step_auth_session(session, AuthEvent::BrowserLaunched);
    assert!(matches!(session.state, FlowState::TimedOut));
    assert!(matches!(action, AuthAction::Finish));
}

#[test]
fn parse_callback_request_reads_query() {
    let parsed = parse_callback_request(
        "GET /auth/callback?code=abc123&state=st8 HTTP/1.1\r\nHost: x\r\n\r\n",
    );
    assert_eq!(parsed.code, Some("abc123".to_string()));
    assert_eq!(parsed.state, "st8");
    assert_eq!(parsed.error, None);
}

#[test]
fn parse_callback_request_reads_error() {
    let parsed =
        parse_callback_request("GET /auth/callback?error=access_denied HTTP/1.1\r\n\r\n");
    assert_eq!(parsed.code, None);
    assert_eq!(parsed.state, "");
    assert_eq!(parsed.error, Some("access_denied".to_string()));
}

#[test]
fn parse_callback_request_without_query() {
    let parsed = parse_callback_request("GET /favicon.ico HTTP/1.1\r\n\r\n");
    assert_eq!(parsed.code, None);
    assert_eq!(parsed.error, None);
}

#[test]
fn parse_callback_request_decodes_values() {
    let parsed = parse_callback_request("GET /auth/callback?code=a%2Fb&state=s+t HTTP/1.1\r\n");
    assert_eq!(parsed.code, Some("a/b".to_string()));
    assert_eq!(parsed.state, "s t");
}

#[test]
fn callback_response_success_page() {
    let r = callback_http_response(true);
    let body = "<html><body><h1>Authentication successful!</h1><p>You can close this window and return to Relate Mail.</p><script>window.close()</script></body></html>";
    let expected = format!(
        "HTTP/1.1 200 OK\r\nContent-Type: text/html\r\nContent-Length: {}\r\nConnection: close\r\n\r\n{}",
        body.len(),
        body
    );
    assert_eq!(r, expected);
}

#[test]
fn callback_response_failure_page() {
    let r = callback_http_response(false);
    assert!(r.starts_with("HTTP/1.1 400 Bad Request\r\n"));
    assert!(r.contains("Connection: close"));
    assert!(r.contains("Authentication failed"));
}
