//! The authorization flow as an explicit state machine. The driver performs
//! one action at a time (fetch, bind, open the browser, await the callback,
//! post the token request) and feeds the outcome back as an event; every
//! decision — what to do next, how to word a failure, whether the callback's
//! state matches — is taken here. Terminal states never hold the listener,
//! so a later flow can bind the same port again.

use vstd::prelude::*;
use vstd::string::StringExecFns;
use vstd::utf8::encode_utf8;
use crate::codec::dec_digits_spec;
use crate::codec::encode_bytes_spec;
use crate::codec::u64_to_dec;
use crate::errors::concat_str;
use crate::errors::OidcError;
use crate::pkce::challenge_spec;
use crate::pkce::PkceParams;

verus! {

/// The fixed loopback port the redirect URI is registered for; binding
/// failure is fatal, with no fallback to another port.
pub const CALLBACK_PORT: u16 = 23847;

/// The overall wait for the browser callback, in seconds.
pub const AUTH_TIMEOUT_SECS: u64 = 300;

/// The fixed redirect URI, matching the pre-registered callback port.
pub open spec fn redirect_uri_spec() -> Seq<char> {
    "http://127.0.0.1:23847/auth/callback"@
}

/// The fixed redirect URI as a value.
pub fn redirect_uri() -> (r: String)
    ensures
        r@ == redirect_uri_spec(),
{
    String::from_str("http://127.0.0.1:23847/auth/callback")
}

/// An authority with its trailing slashes removed.
pub open spec fn trim_slashes_spec(s: Seq<char>) -> Seq<char>
    decreases s.len(),
{
    if s.len() > 0 && s.last() == '/' {
        trim_slashes_spec(s.drop_last())
    } else {
        s
    }
}

/// Removes trailing slashes.
pub fn trim_trailing_slashes(s: &str) -> (r: String)
    ensures
        r@ == trim_slashes_spec(s@),
{
    let n: usize = s.unicode_len();
    let mut k: usize = n;
    proof {
        assert(s@.take(n as int) =~= s@);
    }
    while k > 0 && s.get_char(k - 1) == '/'
        invariant
            n == s@.len(),
            k <= n,
            trim_slashes_spec(s@) == trim_slashes_spec(s@.take(k as int)),
        decreases k,
    {
        proof {
            assert(s@.take(k as int).last() == s@[k - 1]);
            assert(s@.take(k as int).drop_last() =~= s@.take(k - 1));
        }
        k = k - 1;
    }
    let r = s.substring_char(0, k);
    proof {
        if k > 0 {
            assert(s@.take(k as int).last() == s@[k - 1]);
        }
        assert(trim_slashes_spec(s@.take(k as int)) == s@.take(k as int));
    }
    String::from_str(r)
}

/// The provider metadata URL for an authority.
pub open spec fn openid_config_url_spec(authority: Seq<char>) -> Seq<char> {
    trim_slashes_spec(authority) + "/.well-known/openid-configuration"@
}

/// Percent-encoding of a string value, as the authorization URL carries it.
pub open spec fn enc_spec(s: Seq<char>) -> Seq<char> {
    encode_bytes_spec(encode_utf8(s))
}

/// The authorization URL, with its query parameters in this fixed order:
/// response_type, client_id, redirect_uri, scope, state, code_challenge,
/// code_challenge_method=S256.
pub open spec fn auth_url_spec(
    endpoint: Seq<char>,
    client_id: Seq<char>,
    redirect_uri: Seq<char>,
    scope: Seq<char>,
    state: Seq<char>,
    challenge: Seq<char>,
) -> Seq<char> {
    endpoint + "?response_type=code&client_id="@ + enc_spec(client_id) + "&redirect_uri="@
        + enc_spec(redirect_uri) + "&scope="@ + enc_spec(scope) + "&state="@ + enc_spec(state)
        + "&code_challenge="@ + enc_spec(challenge) + "&code_challenge_method=S256"@
}

/// The form parameters of the token exchange, in order.
pub open spec fn token_params_spec(
    code: Seq<char>,
    redirect_uri: Seq<char>,
    client_id: Seq<char>,
    verifier: Seq<char>,
) -> Seq<(Seq<char>, Seq<char>)> {
    seq![
        ("grant_type"@, "authorization_code"@),
        ("code"@, code),
        ("redirect_uri"@, redirect_uri),
        ("client_id"@, client_id),
        ("code_verifier"@, verifier),
    ]
}

/// The tokens the provider returned; an opaque pass-through.
pub struct TokenResponse {
    pub access_token: String,
    pub id_token: Option<String>,
    pub refresh_token: Option<String>,
    pub expires_in: Option<u64>,
    pub token_type: Option<String>,
}

/// Where one authorization attempt stands.
pub enum FlowState {
    Idle,
    Discovering,
    ListenerBound,
    BrowserOpened,
    AwaitingCallback,
    Validating { code: String, received_state: String },
    ExchangingToken,
    Complete { tokens: TokenResponse },
    Failed { error: OidcError },
    TimedOut,
}

/// What the driver reports back: the outcome of the last action.
pub enum AuthEvent {
    DiscoveryDocument { authorization_endpoint: String, token_endpoint: String },
    DiscoveryNetworkFailure { message: String },
    DiscoveryInvalid { message: String },
    ListenerReady,
    ListenerFailure { message: String },
    BrowserLaunched,
    BrowserFailure { message: String },
    Callback { code: Option<String>, state: String, error: Option<String> },
    CallbackFailure { message: String },
    TimeoutExpired,
    TokenSuccess { tokens: TokenResponse },
    TokenHttpFailure { status: u16, body: String },
    TokenRequestFailure { message: String },
    TokenInvalidResponse { message: String },
}

/// What the driver must do next.
pub enum AuthAction {
    FetchDiscovery { url: String },
    BindListener { port: u16 },
    OpenBrowser { url: String },
    AwaitCallback { timeout_secs: u64 },
    Validate,
    ExchangeCode { token_endpoint: String, params: Vec<(String, String)> },
    Finish,
}

/// One authorization attempt: the machine state and the values the flow was
/// started with. PKCE values are generated fresh per attempt and never
/// reused across attempts.
pub struct AuthSession {
    pub state: FlowState,
    pub client_id: String,
    pub scope: String,
    pub verifier: String,
    pub challenge: String,
    pub expected_state: String,
    pub authorization_endpoint: String,
    pub token_endpoint: String,
    pub listener_held: bool,
}

/// States from which the flow cannot move on.
pub open spec fn is_terminal_spec(s: FlowState) -> bool {
    match s {
        FlowState::Complete { .. } => true,
        FlowState::Failed { .. } => true,
        FlowState::TimedOut => true,
        _ => false,
    }
}

impl AuthSession {
    /// A finished attempt never holds the listener: the port can be bound
    /// again by the next attempt.
    pub open spec fn wf(&self) -> bool {
        is_terminal_spec(self.state) ==> !self.listener_held
    }

    /// The session's fields other than the machine state and the listener.
    pub open spec fn same_config(&self, other: &AuthSession) -> bool {
        &&& self.client_id == other.client_id
        &&& self.scope == other.scope
        &&& self.verifier == other.verifier
        &&& self.challenge == other.challenge
        &&& self.expected_state == other.expected_state
    }
}

fn is_terminal(s: &FlowState) -> (r: bool)
    ensures
        r == is_terminal_spec(*s),
{
    match s {
        FlowState::Complete { .. } => true,
        FlowState::Failed { .. } => true,
        FlowState::TimedOut => true,
        _ => false,
    }
}

/// Starts an attempt: the session enters `Discovering` and the driver is
/// asked to fetch the authority's well-known configuration document.
pub fn begin_auth_session(authority: &str, client_id: String, scopes: Option<String>, pkce: PkceParams) -> (r:
    (AuthSession, AuthAction))
    requires
        pkce.wf(),
    ensures
        r.0.state is Discovering,
        !r.0.listener_held,
        r.0.wf(),
        r.0.client_id == client_id,
        r.0.scope@ == (match scopes {
            Some(s) => s@,
            None => "openid profile email"@,
        }),
        r.0.verifier == pkce.verifier,
        r.0.challenge == pkce.challenge,
        r.0.challenge@ == challenge_spec(r.0.verifier@),
        r.0.expected_state == pkce.state,
        r.1 matches AuthAction::FetchDiscovery { url } && url@ == openid_config_url_spec(
            authority@,
        ),
{
    let scope = match scopes {
        Some(s) => s,
        None => String::from_str("openid profile email"),
    };
    let mut url = trim_trailing_slashes(authority);
    url.append("/.well-known/openid-configuration");
    let session = AuthSession {
        state: FlowState::Discovering,
        client_id,
        scope,
        verifier: pkce.verifier,
        challenge: pkce.challenge,
        expected_state: pkce.state,
        authorization_endpoint: String::new(),
        token_endpoint: String::new(),
        listener_held: false,
    };
    (session, AuthAction::FetchDiscovery { url })
}

/// A failure state carrying the given error; the listener is released.
fn fail(mut s: AuthSession, error: OidcError) -> (r: (AuthSession, AuthAction))
    ensures
        r.0.state matches FlowState::Failed { error: e } && e == error,
        !r.0.listener_held,
        r.0.same_config(&s),
        r.0.authorization_endpoint == s.authorization_endpoint,
        r.0.token_endpoint == s.token_endpoint,
        r.1 is Finish,
{
    s.state = FlowState::Failed { error };
    s.listener_held = false;
    (s, AuthAction::Finish)
}

/// The authorization URL for this session's values.
fn build_auth_url(
    endpoint: &String,
    client_id: &String,
    scope: &String,
    state: &String,
    challenge: &String,
) -> (r: String)
    ensures
        r@ == auth_url_spec(endpoint@, client_id@, redirect_uri_spec(), scope@, state@, challenge@),
{
    let mut r = endpoint.clone();
    r.append("?response_type=code&client_id=");
    let e_cid = crate::codec::urlencoding_encode(client_id.as_str());
    r.append(e_cid.as_str());
    r.append("&redirect_uri=");
    let ru = redirect_uri();
    let e_ru = crate::codec::urlencoding_encode(ru.as_str());
    r.append(e_ru.as_str());
    r.append("&scope=");
    let e_scope = crate::codec::urlencoding_encode(scope.as_str());
    r.append(e_scope.as_str());
    r.append("&state=");
    let e_state = crate::codec::urlencoding_encode(state.as_str());
    r.append(e_state.as_str());
    r.append("&code_challenge=");
    let e_ch = crate::codec::urlencoding_encode(challenge.as_str());
    r.append(e_ch.as_str());
    r.append("&code_challenge_method=S256");
    proof {
        assert(r@ =~= auth_url_spec(
            endpoint@,
            client_id@,
            redirect_uri_spec(),
            scope@,
            state@,
            challenge@,
        ));
    }
    r
}

/// The token exchange form, in the fixed parameter order.
fn build_token_params(code: &String, client_id: &String, verifier: &String) -> (r: Vec<
    (String, String),
>)
    ensures
        r.deep_view() == token_params_spec(code@, redirect_uri_spec(), client_id@, verifier@),
{
    let mut r: Vec<(String, String)> = Vec::new();
    r.push((String::from_str("grant_type"), String::from_str("authorization_code")));
    r.push((String::from_str("code"), code.clone()));
    r.push((String::from_str("redirect_uri"), redirect_uri()));
    r.push((String::from_str("client_id"), client_id.clone()));
    r.push((String::from_str("code_verifier"), verifier.clone()));
    proof {
        assert(r.deep_view() =~~= token_params_spec(
            code@,
            redirect_uri_spec(),
            client_id@,
            verifier@,
        ));
    }
    r
}

/// One transition: the outcome of the last action moves the machine on.
/// Every failure is a typed terminal state with its exact message; a timeout
/// from any non-terminal state ends the attempt and releases the listener;
/// an event that does not belong to the current state fails the attempt; a
/// terminal state absorbs every further event.
pub fn step_auth_session(session: AuthSession, ev: AuthEvent) -> (r: (AuthSession, AuthAction))
    ensures
        r.0.same_config(&session),
        session.wf() ==> r.0.wf(),
        is_terminal_spec(r.0.state) ==> r.1 is Finish,
        !(ev is DiscoveryDocument) ==> r.0.authorization_endpoint
            == session.authorization_endpoint && r.0.token_endpoint == session.token_endpoint,
        is_terminal_spec(session.state) ==> r.0 == session && r.1 is Finish,
        !is_terminal_spec(session.state) && ev is TimeoutExpired ==> r.0.state is TimedOut
            && !r.0.listener_held && r.1 is Finish,
        !is_terminal_spec(session.state) ==> {
            &&& (ev matches AuthEvent::DiscoveryDocument { authorization_endpoint: ae, token_endpoint: te }
                ==> (if session.state is Discovering {
                &&& r.0.state is ListenerBound
                &&& r.0.authorization_endpoint == ae
                &&& r.0.token_endpoint == te
                &&& r.0.listener_held == session.listener_held
                &&& r.1 matches AuthAction::BindListener { port: p } && p == 23847
            } else {
                r.0.state is Failed
            }))
            &&& (ev matches AuthEvent::DiscoveryNetworkFailure { message: m } ==> r.0.state
                matches FlowState::Failed { error: e } && e matches OidcError::DiscoveryFailed(s)
                && s@ == "Failed to fetch OIDC config: "@ + m@ && !r.0.listener_held)
            &&& (ev matches AuthEvent::DiscoveryInvalid { message: m } ==> r.0.state
                matches FlowState::Failed { error: e } && e matches OidcError::DiscoveryFailed(s)
                && s@ == "Invalid OIDC config: "@ + m@ && !r.0.listener_held)
            &&& (ev is ListenerReady ==> (if session.state is ListenerBound {
                &&& r.0.state is BrowserOpened
                &&& r.0.listener_held
                &&& r.1 matches AuthAction::OpenBrowser { url } && url@ == auth_url_spec(
                    session.authorization_endpoint@,
                    session.client_id@,
                    redirect_uri_spec(),
                    session.scope@,
                    session.expected_state@,
                    session.challenge@,
                )
            } else {
                r.0.state is Failed
            }))
            &&& (ev matches AuthEvent::ListenerFailure { message: m } ==> r.0.state
                matches FlowState::Failed { error: e } && e matches OidcError::AuthFailed(s) && s@
                == "Port 23847 unavailable. Close other apps using this port. Error: "@ + m@
                && !r.0.listener_held)
            &&& (ev is BrowserLaunched ==> (if session.state is BrowserOpened {
                &&& r.0.state is AwaitingCallback
                &&& r.0.listener_held == session.listener_held
                &&& r.1 matches AuthAction::AwaitCallback { timeout_secs: t } && t == 300
            } else {
                r.0.state is Failed
            }))
            &&& (ev matches AuthEvent::BrowserFailure { message: m } ==> r.0.state
                matches FlowState::Failed { error: e } && e matches OidcError::AuthFailed(s) && s@
                == "Failed to open browser: "@ + m@ && !r.0.listener_held)
            &&& (ev matches AuthEvent::Callback { code, state: st, error } ==> (if session.state
                is AwaitingCallback {
                match code {
                    Some(c) => r.0.state matches FlowState::Validating {
                        code: c2,
                        received_state: rs,
                    } && c2 == c && rs == st && r.0.listener_held == session.listener_held && r.1
                        is Validate,
                    None => match error {
                        Some(why) => r.0.state matches FlowState::Failed { error: e } && e
                            matches OidcError::AuthFailed(s) && s@ == "OIDC error: "@ + why@
                            && !r.0.listener_held,
                        None => r.0.state matches FlowState::Failed { error: e } && e
                            matches OidcError::AuthFailed(s) && s@
                            == "No authorization code received"@ && !r.0.listener_held,
                    },
                }
            } else {
                r.0.state is Failed
            }))
            &&& (ev matches AuthEvent::CallbackFailure { message: m } ==> r.0.state
                matches FlowState::Failed { error: e } && e matches OidcError::AuthFailed(s) && s@
                == m@ && !r.0.listener_held)
            &&& (ev matches AuthEvent::TokenSuccess { tokens } ==> (if session.state
                is ExchangingToken {
                r.0.state matches FlowState::Complete { tokens: t } && t == tokens
                    && !r.0.listener_held && r.1 is Finish
            } else {
                r.0.state is Failed
            }))
            &&& (ev matches AuthEvent::TokenHttpFailure { status, body } ==> r.0.state
                matches FlowState::Failed { error: e } && e
                matches OidcError::TokenExchangeFailed(s) && s@ == "Token endpoint returned HTTP "@
                + dec_digits_spec(status as nat) + ": "@ + body@ && !r.0.listener_held)
            &&& (ev matches AuthEvent::TokenRequestFailure { message: m } ==> r.0.state
                matches FlowState::Failed { error: e } && e
                matches OidcError::TokenExchangeFailed(s) && s@ == "Token request failed: "@ + m@
                && !r.0.listener_held)
            &&& (ev matches AuthEvent::TokenInvalidResponse { message: m } ==> r.0.state
                matches FlowState::Failed { error: e } && e
                matches OidcError::TokenExchangeFailed(s) && s@ == "Invalid token response: "@ + m@
                && !r.0.listener_held)
        },
{
    if is_terminal(&session.state) {
        return (session, AuthAction::Finish);
    }
    match ev {
        AuthEvent::TimeoutExpired => {
            let mut s = session;
            s.state = FlowState::TimedOut;
            s.listener_held = false;
            (s, AuthAction::Finish)
        },
        AuthEvent::DiscoveryDocument { authorization_endpoint, token_endpoint } => {
            let fits = match &session.state {
                FlowState::Discovering => true,
                _ => false,
            };
            if fits {
                let mut s = session;
                s.authorization_endpoint = authorization_endpoint;
                s.token_endpoint = token_endpoint;
                s.state = FlowState::ListenerBound;
                (s, AuthAction::BindListener { port: CALLBACK_PORT })
            } else {
                fail(session, OidcError::AuthFailed(String::from_str("Unexpected event")))
            }
        },
        AuthEvent::DiscoveryNetworkFailure { message } => {
            let m = concat_str("Failed to fetch OIDC config: ", message.as_str());
            fail(session, OidcError::DiscoveryFailed(m))
        },
        AuthEvent::DiscoveryInvalid { message } => {
            let m = concat_str("Invalid OIDC config: ", message.as_str());
            fail(session, OidcError::DiscoveryFailed(m))
        },
        AuthEvent::ListenerReady => {
            let fits = match &session.state {
                FlowState::ListenerBound => true,
                _ => false,
            };
            if fits {
                let mut s = session;
                s.listener_held = true;
                let url = build_auth_url(
                    &s.authorization_endpoint,
                    &s.client_id,
                    &s.scope,
                    &s.expected_state,
                    &s.challenge,
                );
                s.state = FlowState::BrowserOpened;
                (s, AuthAction::OpenBrowser { url })
            } else {
                fail(session, OidcError::AuthFailed(String::from_str("Unexpected event")))
            }
        },
        AuthEvent::ListenerFailure { message } => {
            let m = concat_str(
                "Port 23847 unavailable. Close other apps using this port. Error: ",
                message.as_str(),
            );
            fail(session, OidcError::AuthFailed(m))
        },
        AuthEvent::BrowserLaunched => {
            let fits = match &session.state {
                FlowState::BrowserOpened => true,
                _ => false,
            };
            if fits {
                let mut s = session;
                s.state = FlowState::AwaitingCallback;
                (s, AuthAction::AwaitCallback { timeout_secs: AUTH_TIMEOUT_SECS })
            } else {
                fail(session, OidcError::AuthFailed(String::from_str("Unexpected event")))
            }
        },
        AuthEvent::BrowserFailure { message } => {
            let m = concat_str("Failed to open browser: ", message.as_str());
            fail(session, OidcError::AuthFailed(m))
        },
        AuthEvent::Callback { code, state, error } => {
            let fits = match &session.state {
                FlowState::AwaitingCallback => true,
                _ => false,
            };
            if fits {
                match code {
                    Some(c) => {
                        let mut s = session;
                        s.state = FlowState::Validating { code: c, received_state: state };
                        (s, AuthAction::Validate)
                    },
                    None => match error {
                        Some(why) => {
                            let m = concat_str("OIDC error: ", why.as_str());
                            fail(session, OidcError::AuthFailed(m))
                        },
                        None => fail(
                            session,
                            OidcError::AuthFailed(
                                String::from_str("No authorization code received"),
                            ),
                        ),
                    },
                }
            } else {
                fail(session, OidcError::AuthFailed(String::from_str("Unexpected event")))
            }
        },
        AuthEvent::CallbackFailure { message } => {
            fail(session, OidcError::AuthFailed(message))
        },
        AuthEvent::TokenSuccess { tokens } => {
            let fits = match &session.state {
                FlowState::ExchangingToken => true,
                _ => false,
            };
            if fits {
                let mut s = session;
                s.state = FlowState::Complete { tokens };
                s.listener_held = false;
                (s, AuthAction::Finish)
            } else {
                fail(session, OidcError::AuthFailed(String::from_str("Unexpected event")))
            }
        },
        AuthEvent::TokenHttpFailure { status, body } => {
            let mut m = String::from_str("Token endpoint returned HTTP ");
            let digits = u64_to_dec(status as u64);
            m.append(digits.as_str());
            m.append(": ");
            m.append(body.as_str());
            proof {
                assert(m@ =~= "Token endpoint returned HTTP "@ + dec_digits_spec(status as nat)
                    + ": "@ + body@);
            }
            fail(session, OidcError::TokenExchangeFailed(m))
        },
        AuthEvent::TokenRequestFailure { message } => {
            let m = concat_str("Token request failed: ", message.as_str());
            fail(session, OidcError::TokenExchangeFailed(m))
        },
        AuthEvent::TokenInvalidResponse { message } => {
            let m = concat_str("Invalid token response: ", message.as_str());
            fail(session, OidcError::TokenExchangeFailed(m))
        },
    }
}

/// The validation transition: the callback's state value must equal the
/// generated one, by exact string equality, before anything else happens. A
/// mismatch is a terminal failure — the code is never exchanged — so a
/// forged callback cannot move the flow to the token endpoint.
pub fn validate_auth_callback(session: AuthSession) -> (r: (AuthSession, AuthAction))
    requires
        session.state matches FlowState::Validating { .. },
    ensures
        r.0.same_config(&session),
        r.0.authorization_endpoint == session.authorization_endpoint,
        r.0.token_endpoint == session.token_endpoint,
        session.wf() ==> r.0.wf(),
        session.state matches FlowState::Validating { code, received_state } ==> (if received_state@
            == session.expected_state@ {
            &&& r.0.state is ExchangingToken
            &&& r.0.listener_held == session.listener_held
            &&& r.1 matches AuthAction::ExchangeCode { token_endpoint: te, params } && te
                == session.token_endpoint && params.deep_view() == token_params_spec(
                code@,
                redirect_uri_spec(),
                session.client_id@,
                session.verifier@,
            )
        } else {
            &&& r.0.state matches FlowState::Failed { error: e } && e
                matches OidcError::AuthFailed(s) && s@ == "State mismatch"@
            &&& !r.0.listener_held
            &&& r.1 is Finish
        }),
{
    let (code, received_state) = match &session.state {
        FlowState::Validating { code, received_state } => (code.clone(), received_state.clone()),
        _ => (String::new(), String::new()),
    };
    if received_state == session.expected_state {
        let params = build_token_params(&code, &session.client_id, &session.verifier);
        let te = session.token_endpoint.clone();
        let mut s = session;
        s.state = FlowState::ExchangingToken;
        (s, AuthAction::ExchangeCode { token_endpoint: te, params })
    } else {
        fail(session, OidcError::AuthFailed(String::from_str("State mismatch")))
    }
}

} // verus!
