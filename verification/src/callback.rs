//! Parsing of the single HTTP request that the loopback callback listener
//! receives, and the static HTML response written back. Only the request
//! line (method, path, query) is read; headers and body are ignored.

use vstd::prelude::*;
use vstd::string::StringExecFns;
use vstd::utf8::encode_utf8;
use crate::codec::after_byte_spec;
use crate::codec::before_byte_spec;
use crate::codec::dec_digits_spec;
use crate::codec::lemma_before_after_split;
use crate::codec::lookup_pair_spec;
use crate::codec::parse_query_bytes_spec;
use crate::codec::parse_query_slice;
use crate::codec::query_param;
use crate::codec::u64_to_dec;

verus! {

/// The first line of a request: the bytes before the first line feed, with a
/// carriage return before that line feed removed.
pub open spec fn first_line_bytes_spec(bytes: Seq<u8>) -> Seq<u8> {
    let p = before_byte_spec(bytes, 10);
    if p.len() < bytes.len() && p.len() > 0 && p[p.len() - 1] == 13 {
        p.drop_last()
    } else {
        p
    }
}

/// ASCII whitespace, as the request line is tokenized.
pub open spec fn is_space_byte(b: u8) -> bool {
    b == 32 || b == 9 || b == 10 || b == 13 || b == 11 || b == 12
}

/// Leading whitespace removed.
pub open spec fn skip_spaces_spec(s: Seq<u8>) -> Seq<u8>
    decreases s.len(),
{
    if s.len() == 0 {
        s
    } else if is_space_byte(s[0]) {
        skip_spaces_spec(s.skip(1))
    } else {
        s
    }
}

/// The leading run of non-whitespace bytes.
pub open spec fn take_token_spec(s: Seq<u8>) -> Seq<u8>
    decreases s.len(),
{
    if s.len() == 0 {
        Seq::empty()
    } else if is_space_byte(s[0]) {
        Seq::empty()
    } else {
        seq![s[0]] + take_token_spec(s.skip(1))
    }
}

/// The leading run of non-whitespace bytes removed.
pub open spec fn skip_token_spec(s: Seq<u8>) -> Seq<u8>
    decreases s.len(),
{
    if s.len() == 0 {
        s
    } else if is_space_byte(s[0]) {
        s
    } else {
        skip_token_spec(s.skip(1))
    }
}

/// The second whitespace-separated token, empty when there is none: for a
/// request line `GET /path HTTP/1.1`, the path.
pub open spec fn second_token_spec(s: Seq<u8>) -> Seq<u8> {
    take_token_spec(skip_spaces_spec(skip_token_spec(skip_spaces_spec(s))))
}

/// The path of the request: the second token of its first line.
pub open spec fn request_path_spec(bytes: Seq<u8>) -> Seq<u8> {
    second_token_spec(first_line_bytes_spec(bytes))
}

/// The raw query of the request: what follows the first `?` of the path.
pub open spec fn request_query_spec(bytes: Seq<u8>) -> Seq<u8> {
    after_byte_spec(request_path_spec(bytes), 63)
}

/// The decoded query parameters carried by the request.
pub open spec fn callback_params_spec(bytes: Seq<u8>) -> Seq<(Seq<char>, Seq<char>)> {
    parse_query_bytes_spec(request_query_spec(bytes))
}

proof fn lemma_skip_spaces(s: Seq<u8>, j: int)
    requires
        0 <= j <= s.len(),
        forall|k: int| 0 <= k < j ==> is_space_byte(s[k]),
        j == s.len() || !is_space_byte(s[j]),
    ensures
        skip_spaces_spec(s) == s.skip(j),
    decreases j,
{
    if j == 0 {
        assert(s.skip(0) =~= s);
    } else {
        lemma_skip_spaces(s.skip(1), j - 1);
        assert(s.skip(1).skip(j - 1) =~= s.skip(j));
    }
}

proof fn lemma_token_split(s: Seq<u8>, j: int)
    requires
        0 <= j <= s.len(),
        forall|k: int| 0 <= k < j ==> !is_space_byte(s[k]),
        j == s.len() || is_space_byte(s[j]),
    ensures
        take_token_spec(s) == s.take(j),
        skip_token_spec(s) == s.skip(j),
    decreases j,
{
    if j == 0 {
        assert(s.take(0) =~= Seq::<u8>::empty());
        assert(s.skip(0) =~= s);
    } else {
        lemma_token_split(s.skip(1), j - 1);
        assert(seq![s[0]] + s.skip(1).take(j - 1) =~= s.take(j));
        assert(s.skip(1).skip(j - 1) =~= s.skip(j));
    }
}

fn is_space(b: u8) -> (r: bool)
    ensures
        r == is_space_byte(b),
{
    b == 32 || b == 9 || b == 10 || b == 13 || b == 11 || b == 12
}

/// What the callback request carried: the `code`, `state` and `error` query
/// parameters, a repeated key resolved to its last occurrence, a missing
/// `state` read as empty.
pub struct CallbackRequest {
    pub code: Option<String>,
    pub state: String,
    pub error: Option<String>,
}

/// Reads the `code`, `state` and `error` query parameters out of a raw HTTP
/// request, looking only at the request line.
#[verifier::rlimit(100)]
pub fn parse_callback_request(request: &str) -> (r: CallbackRequest)
    ensures
        ({
            let params = callback_params_spec(encode_utf8(request@));
            &&& r.code.deep_view() == lookup_pair_spec(params, "code"@)
            &&& r.error.deep_view() == lookup_pair_spec(params, "error"@)
            &&& r.state@ == (match lookup_pair_spec(params, "state"@) {
                Some(v) => v,
                None => Seq::<char>::empty(),
            })
        }),
{
    let bytes: &[u8] = request.as_bytes();
    let n: usize = bytes.len();
    let ghost whole = bytes@;

    let mut e: usize = 0;
    while e < n && *vstd::slice::slice_index_get(bytes, e) != 10
        invariant
            n == whole.len(),
            whole == bytes@,
            e <= n,
            forall|k: int| 0 <= k < e ==> whole[k] != 10,
        decreases n - e,
    {
        e = e + 1;
    }
    let line_end: usize = if e < n && e > 0 && *vstd::slice::slice_index_get(bytes, e - 1) == 13 {
        e - 1
    } else {
        e
    };
    proof {
        lemma_before_after_split(whole, 10, e as int);
        if e < n {
            assert(before_byte_spec(whole, 10) == whole.take(e as int));
            if e > 0 && whole[e - 1] == 13 {
                assert(whole.take(e as int).drop_last() =~= whole.take(e - 1));
            }
        } else {
            assert(whole.take(e as int) =~= whole);
        }
        assert(first_line_bytes_spec(whole) =~= whole.take(line_end as int));
    }
    let ghost line = whole.take(line_end as int);

    let mut t1_start: usize = 0;
    while t1_start < line_end && is_space(*vstd::slice::slice_index_get(bytes, t1_start))
        invariant
            line_end <= n,
            n == whole.len(),
            whole == bytes@,
            t1_start <= line_end,
            line == whole.take(line_end as int),
            forall|k: int| 0 <= k < t1_start ==> is_space_byte(line[k]),
        decreases line_end - t1_start,
    {
        t1_start = t1_start + 1;
    }
    let mut t1_end: usize = t1_start;
    while t1_end < line_end && !is_space(*vstd::slice::slice_index_get(bytes, t1_end))
        invariant
            line_end <= n,
            n == whole.len(),
            whole == bytes@,
            t1_start <= t1_end <= line_end,
            line == whole.take(line_end as int),
            forall|k: int| t1_start <= k < t1_end ==> !is_space_byte(line[k]),
        decreases line_end - t1_end,
    {
        t1_end = t1_end + 1;
    }
    let mut t2_start: usize = t1_end;
    while t2_start < line_end && is_space(*vstd::slice::slice_index_get(bytes, t2_start))
        invariant
            line_end <= n,
            n == whole.len(),
            whole == bytes@,
            t1_end <= t2_start <= line_end,
            line == whole.take(line_end as int),
            forall|k: int| t1_end <= k < t2_start ==> is_space_byte(line[k]),
        decreases line_end - t2_start,
    {
        t2_start = t2_start + 1;
    }
    let mut t2_end: usize = t2_start;
    while t2_end < line_end && !is_space(*vstd::slice::slice_index_get(bytes, t2_end))
        invariant
            line_end <= n,
            n == whole.len(),
            whole == bytes@,
            t2_start <= t2_end <= line_end,
            line == whole.take(line_end as int),
            forall|k: int| t2_start <= k < t2_end ==> !is_space_byte(line[k]),
        decreases line_end - t2_end,
    {
        t2_end = t2_end + 1;
    }
    proof {
        lemma_skip_spaces(line, t1_start as int);
        let s1 = line.skip(t1_start as int);
        assert(forall|k: int| 0 <= k < t1_end - t1_start ==> s1[k] == line[t1_start + k]);
        lemma_token_split(s1, t1_end - t1_start as int);
        assert(s1.skip(t1_end - t1_start as int) =~= line.skip(t1_end as int));
        let s2 = line.skip(t1_end as int);
        assert(forall|k: int| 0 <= k < t2_start - t1_end ==> s2[k] == line[t1_end + k]);
        lemma_skip_spaces(s2, t2_start - t1_end as int);
        assert(s2.skip(t2_start - t1_end as int) =~= line.skip(t2_start as int));
        let s3 = line.skip(t2_start as int);
        assert(forall|k: int| 0 <= k < t2_end - t2_start ==> s3[k] == line[t2_start + k]);
        lemma_token_split(s3, t2_end - t2_start as int);
        assert(s3.take(t2_end - t2_start as int) =~= whole.subrange(t2_start as int, t2_end as int));
        assert(request_path_spec(whole) =~= whole.subrange(t2_start as int, t2_end as int));
    }
    let ghost path = whole.subrange(t2_start as int, t2_end as int);

    let mut q: usize = t2_start;
    while q < t2_end && *vstd::slice::slice_index_get(bytes, q) != 63
        invariant
            t2_start <= q <= t2_end <= n,
            n == whole.len(),
            whole == bytes@,
            forall|k: int| t2_start <= k < q ==> whole[k] != 63,
        decreases t2_end - q,
    {
        q = q + 1;
    }
    let qs: usize = if q < t2_end {
        q + 1
    } else {
        t2_end
    };
    proof {
        assert(forall|k: int| 0 <= k < q - t2_start ==> path[k] == whole[t2_start + k]);
        lemma_before_after_split(path, 63, q - t2_start as int);
        if q < t2_end {
            assert(path.skip(q - t2_start + 1) =~= whole.subrange(qs as int, t2_end as int));
        } else {
            assert(whole.subrange(qs as int, t2_end as int) =~= Seq::<u8>::empty());
        }
        assert(request_query_spec(whole) =~= whole.subrange(qs as int, t2_end as int));
    }
    let params = parse_query_slice(vstd::slice::slice_subrange(bytes, qs, t2_end));
    let code = query_param(&params, "code");
    let state_opt = query_param(&params, "state");
    let error = query_param(&params, "error");
    let state = match state_opt {
        Some(s) => s,
        None => String::new(),
    };
    CallbackRequest { code, state, error }
}

/// The success page written back to the browser.
pub open spec fn success_body_spec() -> Seq<char> {
    "<html><body><h1>Authentication successful!</h1><p>You can close this window and return to Relate Mail.</p><script>window.close()</script></body></html>"@
}

/// The failure page written back to the browser.
pub open spec fn failure_body_spec() -> Seq<char> {
    "<html><body><h1>Authentication failed</h1><p>Please try again in the application.</p></body></html>"@
}

/// The whole HTTP response for one callback: a status line, content headers
/// with the exact body length, `Connection: close`, and the page.
pub open spec fn http_response_spec(success: bool) -> Seq<char> {
    let status = if success {
        "HTTP/1.1 200 OK"@
    } else {
        "HTTP/1.1 400 Bad Request"@
    };
    let body = if success {
        success_body_spec()
    } else {
        failure_body_spec()
    };
    status + "\r\nContent-Type: text/html\r\nContent-Length: "@ + dec_digits_spec(
        (encode_utf8(body).len() as usize) as nat,
    ) + "\r\nConnection: close\r\n\r\n"@ + body
}

/// Builds the HTTP response for a callback; the success page when a code was
/// received, the failure page otherwise.
pub fn callback_http_response(success: bool) -> (r: String)
    ensures
        r@ == http_response_spec(success),
{
    let status: &str = if success {
        "HTTP/1.1 200 OK"
    } else {
        "HTTP/1.1 400 Bad Request"
    };
    let body: &str = if success {
        "<html><body><h1>Authentication successful!</h1><p>You can close this window and return to Relate Mail.</p><script>window.close()</script></body></html>"
    } else {
        "<html><body><h1>Authentication failed</h1><p>Please try again in the application.</p></body></html>"
    };
    let mut r = String::from_str(status);
    r.append("\r\nContent-Type: text/html\r\nContent-Length: ");
    let len_str = u64_to_dec(body.len() as u64);
    r.append(len_str.as_str());
    r.append("\r\nConnection: close\r\n\r\n");
    r.append(body);
    proof {
        assert(r@ =~= http_response_spec(success));
    }
    r
}

} // verus!
