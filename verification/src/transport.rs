//! Request-level rules of the HTTP transport: method names, the request URL,
//! which statuses succeed, the error text for a failed response, and the
//! detection of a soft failure (`"success":false` in a small 2xx body).
use vstd::prelude::*;
use vstd::string::*;
use crate::text::{decimal, dec_digits, has_infix, occurs_at};

verus! {

/// HTTP methods the client issues.
#[derive(Clone, Copy, PartialEq, Eq, Debug)]
pub enum HttpMethod {
    Get,
    Post,
    Put,
    Delete,
    Other,
}

/// The name of a method as it appears in log lines and errors.
pub open spec fn spec_method_name(m: HttpMethod) -> Seq<char> {
    match m {
        HttpMethod::Get => "GET"@,
        HttpMethod::Post => "POST"@,
        HttpMethod::Put => "PUT"@,
        HttpMethod::Delete => "DELETE"@,
        HttpMethod::Other => "?"@,
    }
}

/// The name of a method as it appears in log lines and errors.
pub fn method_name(m: HttpMethod) -> (s: &'static str)
    ensures
        s@ == spec_method_name(m),
{
    match m {
        HttpMethod::Get => "GET",
        HttpMethod::Post => "POST",
        HttpMethod::Put => "PUT",
        HttpMethod::Delete => "DELETE",
        HttpMethod::Other => "?",
    }
}

/// The URL of an endpoint: the base URL followed by the endpoint path.
pub fn request_url(base_url: &str, path: &str) -> (url: String)
    ensures
        url@ == base_url@ + path@,
{
    String::from_str(base_url).concat(path)
}

/// A status in `200..=299` is a success.
pub fn is_success_status(status: u16) -> (ok: bool)
    ensures
        ok == (200 <= status && status <= 299),
{
    200 <= status && status <= 299
}

/// Bytes of a response body quoted in an error message.
pub const ERROR_BODY_EXCERPT: usize = 200;

/// Bodies at least this long are not scanned for a soft failure.
pub const SOFT_FAIL_SCAN_LIMIT: usize = 4096;

/// UTF-8 decoding with U+FFFD for each invalid sequence (std's `from_utf8_lossy`).
pub uninterp spec fn utf8_lossy(bytes: Seq<u8>) -> Seq<char>;

/// std's `String::from_utf8_lossy`: the text of `bytes`, with each invalid
/// sequence replaced by U+FFFD. Valid UTF-8 is decoded as it is.
#[verifier::external_body]
fn lossy_text(bytes: &[u8]) -> (s: String)
    ensures
        s@ == utf8_lossy(bytes@),
        vstd::utf8::valid_utf8(bytes@) ==> s@ == vstd::utf8::decode_utf8(bytes@),
{
    String::from_utf8_lossy(bytes).into_owned()
}

/// The first `min(len, limit)` bytes of a body.
pub open spec fn excerpt(body: Seq<u8>, limit: nat) -> Seq<u8> {
    if body.len() <= limit {
        body
    } else {
        body.take(limit as int)
    }
}

/// The error text for a non-2xx response:
/// `qc {METHOD} {path} HTTP {status} body={first 200 bytes, lossily decoded}`.
pub open spec fn spec_http_error_message(m: HttpMethod, path: Seq<char>, status: u16, body: Seq<u8>) -> Seq<char> {
    "qc "@ + spec_method_name(m) + " "@ + path + " HTTP "@ + dec_digits(status as nat) + " body="@
        + utf8_lossy(excerpt(body, ERROR_BODY_EXCERPT as nat))
}

/// The error text for a non-2xx response.
pub fn http_error_message(m: HttpMethod, path: &str, status: u16, body: &[u8]) -> (msg: String)
    ensures
        msg@ == spec_http_error_message(m, path@, status, body@),
{
    let n: usize = if body.len() <= ERROR_BODY_EXCERPT { body.len() } else { ERROR_BODY_EXCERPT };
    let head = slice_prefix(body, n);
    assert(head@ == excerpt(body@, ERROR_BODY_EXCERPT as nat));
    let status_text = decimal(status as u64);
    let body_text = lossy_text(head.as_slice());
    let mut msg = String::from_str("qc ");
    msg.append(method_name(m));
    msg.append(" ");
    msg.append(path);
    msg.append(" HTTP ");
    msg.append(status_text.as_str());
    msg.append(" body=");
    msg.append(body_text.as_str());
    msg
}

/// A non-2xx answer: its status and the error text that reports it.
#[derive(Clone, Debug)]
pub struct HttpFailure {
    pub status: u16,
    pub message: String,
}

/// The failure that a non-2xx answer to `m` on `path` becomes: it keeps the
/// status, for the retry classifier, beside the error text.
pub fn http_failure(m: HttpMethod, path: &str, status: u16, body: &[u8]) -> (f: HttpFailure)
    ensures
        f.status == status,
        f.message@ == spec_http_error_message(m, path@, status, body@),
{
    HttpFailure { status, message: http_error_message(m, path, status, body) }
}

/// The first `n` bytes of `s`.
fn slice_prefix(s: &[u8], n: usize) -> (v: Vec<u8>)
    requires
        n <= s@.len(),
    ensures
        v@ == s@.take(n as int),
{
    let mut v: Vec<u8> = Vec::new();
    for i in 0..n
        invariant
            n <= s@.len(),
            v@ == s@.take(i as int),
    {
        v.push(s[i]);
        assert(s@.take(i + 1) =~= s@.take(i as int).push(s@[i as int]));
    }
    v
}

/// ASCII lower-casing of one byte.
pub open spec fn lower_byte(b: u8) -> u8 {
    if 65 <= b && b <= 90 {
        (b + 32) as u8
    } else {
        b
    }
}

/// The marker of a soft failure: `"success":false`.
pub open spec fn soft_fail_marker() -> Seq<u8> {
    seq![34u8, 115, 117, 99, 99, 101, 115, 115, 34, 58, 102, 97, 108, 115, 101]
}

/// A 2xx body shorter than 4096 bytes that contains `"success":false`,
/// ignoring ASCII case.
pub open spec fn spec_is_soft_fail(body: Seq<u8>) -> bool {
    body.len() < SOFT_FAIL_SCAN_LIMIT && has_infix(
        body.map_values(|b: u8| lower_byte(b)),
        soft_fail_marker(),
    )
}

fn lower_u8(b: u8) -> (r: u8)
    ensures
        r == lower_byte(b),
{
    if 65 <= b && b <= 90 {
        b + 32
    } else {
        b
    }
}

fn marker() -> (m: Vec<u8>)
    ensures
        m@ == soft_fail_marker(),
{
    let m: Vec<u8> = vec![34u8, 115, 117, 99, 99, 101, 115, 115, 34, 58, 102, 97, 108, 115, 101];
    assert(m@ =~= soft_fail_marker());
    m
}

/// Does the lower-cased `body` hold `needle` at `i`?
fn lower_match_at(body: &[u8], needle: &Vec<u8>, i: usize) -> (r: bool)
    requires
        i + needle.len() <= body.len(),
    ensures
        r == occurs_at(body@.map_values(|b: u8| lower_byte(b)), needle@, i as int),
{
    let ghost low = body@.map_values(|b: u8| lower_byte(b));
    let n = needle.len();
    for k in 0..n
        invariant
            n == needle.len(),
            i + n <= body.len(),
            low == body@.map_values(|b: u8| lower_byte(b)),
            forall|j: int| 0 <= j < k ==> low[i + j] == needle@[j],
    {
        if lower_u8(body[i + k]) != needle[k] {
            assert(low.subrange(i as int, i + n)[k as int] != needle@[k as int]);
            return false;
        }
    }
    assert(low.subrange(i as int, i + n) =~= needle@);
    true
}

/// Does a successful response body signal a soft failure?
pub fn is_soft_fail(body: &[u8]) -> (r: bool)
    ensures
        r == spec_is_soft_fail(body@),
{
    let ghost low = body@.map_values(|b: u8| lower_byte(b));
    if body.len() >= SOFT_FAIL_SCAN_LIMIT {
        return false;
    }
    let needle = marker();
    if needle.len() > body.len() {
        assert forall|i: int| !occurs_at(low, needle@, i) by {}
        return false;
    }
    let last = body.len() - needle.len();
    let mut i: usize = 0;
    while i <= last
        invariant
            last == body.len() - needle.len(),
            needle.len() <= body.len(),
            body.len() < SOFT_FAIL_SCAN_LIMIT,
            needle@ == soft_fail_marker(),
            low == body@.map_values(|b: u8| lower_byte(b)),
            i <= last + 1,
            forall|j: int| 0 <= j < i ==> !occurs_at(low, needle@, j),
        decreases last + 1 - i,
    {
        if lower_match_at(body, &needle, i) {
            return true;
        }
        i = i + 1;
    }
    assert forall|j: int| !occurs_at(low, needle@, j) by {}
    false
}

} // verus!
