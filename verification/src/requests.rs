//! Construction and classification of the application's HTTP requests: the
//! generic API pass-through (authenticated with the published API key) and
//! the two post-authorization calls (profile, device API key) authenticated
//! with a bearer token. Requests are prepared and responses judged here; the
//! sending itself happens at the edge.

use vstd::prelude::*;
use vstd::string::StringExecFns;
use crate::accounts::AppState;
use crate::codec::dec_digits_spec;
use crate::codec::hex_digit_spec;
use crate::codec::u64_to_dec;
use crate::codec::push_char;
use crate::errors::ApiError;
use crate::errors::OidcError;

verus! {

/// The HTTP methods the pass-through offers.
pub enum HttpMethod {
    Get,
    Post,
    Put,
    Patch,
    Delete,
}

/// A request ready to be sent: URL, authentication, and an optional JSON
/// body.
pub struct PreparedRequest {
    pub method: HttpMethod,
    pub url: String,
    pub api_key: Option<String>,
    pub bearer: Option<String>,
    pub body: Option<String>,
}

/// The user profile the server reports for a token.
pub struct UserProfile {
    pub id: String,
    pub email: String,
    pub display_name: Option<String>,
}

/// A device-scoped API key minted by the server.
pub struct ApiKeyResponse {
    pub id: String,
    pub name: String,
    pub api_key: String,
    pub scopes: Option<Vec<String>>,
    pub created_at: String,
}

/// Whether a status is a success status.
pub open spec fn is_success_status(status: u16) -> bool {
    200 <= status < 300
}

/// Builds the pass-through request for an endpoint: it needs both a current
/// server URL and a current API key, and fails as not configured without
/// them; the URL is the server's API root followed by the endpoint.
pub fn prepare_api_request(
    view: &AppState,
    method: HttpMethod,
    endpoint: &str,
    body: Option<String>,
) -> (r: Result<PreparedRequest, ApiError>)
    ensures
        view.server_url is None ==> (r matches Err(ApiError::NotConfigured(s)) && s@
            == "Server URL not set"@),
        view.server_url is Some && view.api_key is None ==> (r matches Err(
            ApiError::NotConfigured(s),
        ) && s@ == "API key not set"@),
        view.server_url matches Some(u) ==> (view.api_key is Some ==> (r matches Ok(p)
            && p.method == method && p.url@ == u@ + "/api"@ + endpoint@ && p.api_key.deep_view()
            == view.api_key.deep_view() && p.bearer is None && p.body == body)),
{
    let server_url = match &view.server_url {
        Some(u) => u.clone(),
        None => {
            return Err(ApiError::NotConfigured(String::from_str("Server URL not set")));
        },
    };
    let api_key = match &view.api_key {
        Some(k) => k.clone(),
        None => {
            return Err(ApiError::NotConfigured(String::from_str("API key not set")));
        },
    };
    let mut url = server_url;
    url.append("/api");
    url.append(endpoint);
    Ok(PreparedRequest { method, url, api_key: Some(api_key), bearer: None, body })
}

/// Judges a pass-through response: a success status hands the body through,
/// any other status is a request failure naming the status and the body.
pub fn classify_api_response(status: u16, text: String) -> (r: Result<String, ApiError>)
    ensures
        is_success_status(status) ==> (r matches Ok(t) && t == text),
        !is_success_status(status) ==> (r matches Err(ApiError::RequestFailed(s)) && s@ == "HTTP "@
            + dec_digits_spec(status as nat) + ": "@ + text@),
{
    if 200 <= status && status < 300 {
        Ok(text)
    } else {
        let mut m = String::from_str("HTTP ");
        let digits = u64_to_dec(status as u64);
        m.append(digits.as_str());
        m.append(": ");
        m.append(text.as_str());
        proof {
            assert(m@ =~= "HTTP "@ + dec_digits_spec(status as nat) + ": "@ + text@);
        }
        Err(ApiError::RequestFailed(m))
    }
}

/// The profile request: a bearer-authenticated GET of the profile endpoint.
pub fn prepare_profile_request(server_url: &str, jwt_token: &str) -> (r: PreparedRequest)
    ensures
        r.method is Get,
        r.url@ == server_url@ + "/api/profile"@,
        r.bearer.deep_view() == Some(jwt_token@),
        r.api_key is None,
        r.body is None,
{
    let mut url = String::from_str(server_url);
    url.append("/api/profile");
    PreparedRequest {
        method: HttpMethod::Get,
        url,
        api_key: None,
        bearer: Some(String::from_str(jwt_token)),
        body: None,
    }
}

/// The lower-case hex digit for a value below 16, as JSON control escapes
/// are written.
pub open spec fn hex_digit_lower_spec(n: u8) -> char
    recommends
        n < 16,
{
    if n < 10 {
        hex_digit_spec(n)
    } else if n == 10 { 'a' } else if n == 11 { 'b' } else if n == 12 { 'c' } else if n == 13 { 'd' }
    else if n == 14 { 'e' } else { 'f' }
}

fn hex_digit_lower(n: u8) -> (c: char)
    requires
        n < 16,
    ensures
        c == hex_digit_lower_spec(n),
{
    if n < 10 {
        crate::codec::hex_digit(n)
    } else if n == 10 { 'a' } else if n == 11 { 'b' } else if n == 12 { 'c' } else if n == 13 { 'd' }
    else if n == 14 { 'e' } else { 'f' }
}

/// What one character contributes to a JSON string literal: quote and
/// backslash are escaped, control characters take their short escapes or a
/// `\u00XX` form, anything else stands as itself.
pub open spec fn json_escape_char_spec(c: char) -> Seq<char> {
    if c == '"' {
        seq!['\\', '"']
    } else if c == '\\' {
        seq!['\\', '\\']
    } else if c == '\u{8}' {
        seq!['\\', 'b']
    } else if c == '\u{c}' {
        seq!['\\', 'f']
    } else if c == '\n' {
        seq!['\\', 'n']
    } else if c == '\r' {
        seq!['\\', 'r']
    } else if c == '\t' {
        seq!['\\', 't']
    } else if (c as u32) < 32 {
        seq!['\\', 'u', '0', '0', hex_digit_lower_spec((c as u8) / 16), hex_digit_lower_spec(
            (c as u8) % 16,
        )]
    } else {
        seq![c]
    }
}

/// A JSON string literal: a quote, each character escaped, a quote.
pub open spec fn json_string_spec(s: Seq<char>) -> Seq<char>
    decreases s.len(),
{
    if s.len() == 0 {
        Seq::empty()
    } else {
        json_escape_char_spec(s[0]) + json_string_spec(s.skip(1))
    }
}

proof fn lemma_json_string_push(prefix: Seq<char>, c: char)
    ensures
        json_string_spec(prefix.push(c)) == json_string_spec(prefix) + json_escape_char_spec(c),
    decreases prefix.len(),
{
    if prefix.len() == 0 {
        assert(prefix.push(c)[0] == c);
        assert(prefix.push(c).skip(1) =~= Seq::<char>::empty());
        assert(json_string_spec(prefix.push(c)) == json_escape_char_spec(c) + json_string_spec(
            Seq::<char>::empty(),
        ));
        assert(json_escape_char_spec(c) + Seq::<char>::empty() =~= json_escape_char_spec(c));
        assert(json_string_spec(prefix) + json_escape_char_spec(c) =~= json_escape_char_spec(c));
    } else {
        let tail = prefix.skip(1);
        assert(prefix.push(c)[0] == prefix[0]);
        assert(prefix.push(c).skip(1) =~= tail.push(c));
        assert(json_string_spec(prefix.push(c)) == json_escape_char_spec(prefix[0])
            + json_string_spec(tail.push(c)));
        lemma_json_string_push(tail, c);
        assert(json_escape_char_spec(prefix[0]) + (json_string_spec(tail) + json_escape_char_spec(
            c,
        )) =~= (json_escape_char_spec(prefix[0]) + json_string_spec(tail)) + json_escape_char_spec(
            c,
        ));
    }
}

/// Appends the escaped characters of `s`, between quotes, to `out`.
fn append_json_string(out: &mut String, s: &str)
    ensures
        final(out)@ == old(out)@ + seq!['"'] + json_string_spec(s@) + seq!['"'],
{
    push_char(out, '"');
    let ghost base = out@;
    let n: usize = s.unicode_len();
    let mut i: usize = 0;
    proof {
        assert(s@.take(0) =~= Seq::<char>::empty());
        assert(base + json_string_spec(s@.take(0)) =~= base);
    }
    while i < n
        invariant
            n == s@.len(),
            i <= n,
            out@ == base + json_string_spec(s@.take(i as int)),
        decreases n - i,
    {
        let c = s.get_char(i);
        let ghost before = out@;
        if c == '"' {
            push_char(out, '\\');
            push_char(out, '"');
        } else if c == '\\' {
            push_char(out, '\\');
            push_char(out, '\\');
        } else if c == '\u{8}' {
            push_char(out, '\\');
            push_char(out, 'b');
        } else if c == '\u{c}' {
            push_char(out, '\\');
            push_char(out, 'f');
        } else if c == '\n' {
            push_char(out, '\\');
            push_char(out, 'n');
        } else if c == '\r' {
            push_char(out, '\\');
            push_char(out, 'r');
        } else if c == '\t' {
            push_char(out, '\\');
            push_char(out, 't');
        } else if (c as u32) < 32 {
            push_char(out, '\\');
            push_char(out, 'u');
            push_char(out, '0');
            push_char(out, '0');
            push_char(out, hex_digit_lower((c as u8) / 16));
            push_char(out, hex_digit_lower((c as u8) % 16));
        } else {
            push_char(out, c);
        }
        proof {
            assert(out@ =~= before + json_escape_char_spec(s@[i as int]));
            lemma_json_string_push(s@.take(i as int), s@[i as int]);
            assert(s@.take(i as int).push(s@[i as int]) =~= s@.take(i + 1));
            assert(base + (json_string_spec(s@.take(i as int)) + json_escape_char_spec(
                s@[i as int],
            )) =~= (base + json_string_spec(s@.take(i as int))) + json_escape_char_spec(
                s@[i as int],
            ));
        }
        i = i + 1;
    }
    proof {
        assert(s@.take(n as int) =~= s@);
        assert(old(out)@ + seq!['"'] =~= base);
    }
    push_char(out, '"');
    proof {
        assert(final(out)@ =~= old(out)@ + seq!['"'] + json_string_spec(s@) + seq!['"']);
    }
}

/// The JSON body of the API-key request: an object with the device name and
/// the platform, in that key order.
pub open spec fn api_key_body_spec(device_name: Seq<char>, platform: Seq<char>) -> Seq<char> {
    "{\"deviceName\":"@ + seq!['"'] + json_string_spec(device_name) + seq!['"'] + ",\"platform\":"@
        + seq!['"'] + json_string_spec(platform) + seq!['"'] + "}"@
}

/// The API-key request: a bearer-authenticated POST of the device name and
/// platform as JSON.
pub fn prepare_api_key_request(
    server_url: &str,
    jwt_token: &str,
    device_name: &str,
    platform: &str,
) -> (r: PreparedRequest)
    ensures
        r.method is Post,
        r.url@ == server_url@ + "/api/smtp-credentials/mobile"@,
        r.bearer.deep_view() == Some(jwt_token@),
        r.api_key is None,
        r.body.deep_view() == Some(api_key_body_spec(device_name@, platform@)),
{
    let mut url = String::from_str(server_url);
    url.append("/api/smtp-credentials/mobile");
    let mut body = String::from_str("{\"deviceName\":");
    append_json_string(&mut body, device_name);
    body.append(",\"platform\":");
    append_json_string(&mut body, platform);
    body.append("}");
    proof {
        assert(body@ =~= api_key_body_spec(device_name@, platform@));
    }
    PreparedRequest {
        method: HttpMethod::Post,
        url,
        api_key: None,
        bearer: Some(String::from_str(jwt_token)),
        body: Some(body),
    }
}

/// Judges a profile response: a success status hands the body on for
/// decoding, any other status names the status and body.
pub fn classify_bearer_response(status: u16, text: String, what: &str) -> (r: Result<
    String,
    OidcError,
>)
    ensures
        is_success_status(status) ==> (r matches Ok(t) && t == text),
        !is_success_status(status) ==> (r matches Err(OidcError::RequestFailed(s)) && s@ == what@
            + " endpoint returned HTTP "@ + dec_digits_spec(status as nat) + ": "@ + text@),
{
    if 200 <= status && status < 300 {
        Ok(text)
    } else {
        let mut m = String::from_str(what);
        m.append(" endpoint returned HTTP ");
        let digits = u64_to_dec(status as u64);
        m.append(digits.as_str());
        m.append(": ");
        m.append(text.as_str());
        proof {
            assert(m@ =~= what@ + " endpoint returned HTTP "@ + dec_digits_spec(status as nat)
                + ": "@ + text@);
        }
        Err(OidcError::RequestFailed(m))
    }
}

} // verus!
