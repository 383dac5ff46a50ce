//! The brokered outbound HTTP client a sandboxed connector uses: requests,
//! responses, and how a request is prepared for the host's outgoing handler.
//!
//! A request only leaves the process when the package declares the `http`
//! capability and the host supplied an egress policy; a denial reaches the
//! guest as an [`HttpError`], without the policy's reasoning.
use vstd::prelude::*;
use vstd::utf8::{decode_utf8, valid_utf8};
use crate::text::{find_char, find_char_from, lemma_find_char_from, str_eq, str_starts_with, substring};

verus! {

/// An outbound request. Build with [`Request::get`] / [`Request::post`] or a
/// struct literal.
#[derive(Debug, Clone)]
pub struct Request {
    /// HTTP method (uppercase, e.g. `"GET"`, `"POST"`).
    pub method: String,
    /// Full URL: `http://host[:port]/path?query` or `https://...`.
    pub url: String,
    /// Request headers as (name, value) pairs.
    pub headers: Vec<(String, String)>,
    /// Request body (empty for GET).
    pub body: Vec<u8>,
    /// Optional bound on connect, first-byte and between-bytes waits.
    pub timeout: Option<RequestTimeout>,
}

/// A request timeout: whole seconds and the nanoseconds beyond them, as a
/// `Duration` splits (`as_secs`, `subsec_nanos`).
#[derive(Debug, Clone, Copy, PartialEq, Eq)]
pub struct RequestTimeout {
    pub secs: u64,
    pub subsec_nanos: u32,
}

/// The whole duration in nanoseconds.
pub open spec fn timeout_total_nanos(t: RequestTimeout) -> int {
    t.secs * 1_000_000_000 + t.subsec_nanos
}

/// A nanosecond count as the outgoing handler takes it: clamped to `u64`.
pub open spec fn clamped_nanos(n: int) -> u64 {
    if n > u64::MAX {
        u64::MAX
    } else {
        n as u64
    }
}

impl RequestTimeout {
    /// The timeout in nanoseconds, clamped to what a `u64` holds.
    pub fn nanos(&self) -> (n: u64)
        ensures
            n == clamped_nanos(timeout_total_nanos(*self)),
    {
        let total: u128 = (self.secs as u128) * 1_000_000_000u128 + (self.subsec_nanos as u128);
        clamp_nanos(total)
    }
}

impl Request {
    /// A GET request for `url`.
    pub fn get(url: &str) -> (r: Request)
        ensures
            r.method@ == "GET"@,
            r.url@ == url@,
            r.headers@.len() == 0,
            r.body@.len() == 0,
            r.timeout is None,
    {
        Request {
            method: String::from_str("GET"),
            url: String::from_str(url),
            headers: Vec::new(),
            body: Vec::new(),
            timeout: None,
        }
    }

    /// A POST request for `url` with `body`.
    pub fn post(url: &str, body: Vec<u8>) -> (r: Request)
        ensures
            r.method@ == "POST"@,
            r.url@ == url@,
            r.headers@.len() == 0,
            r.body@ == body@,
            r.timeout is None,
    {
        Request {
            method: String::from_str("POST"),
            url: String::from_str(url),
            headers: Vec::new(),
            body,
            timeout: None,
        }
    }

    /// Adds a header (builder style).
    pub fn header(self, name: &str, value: &str) -> (r: Request)
        ensures
            r.method == self.method,
            r.url == self.url,
            r.headers@.len() == self.headers@.len() + 1,
            forall|i: int| 0 <= i < self.headers@.len() ==> r.headers@[i] == self.headers@[i],
            r.headers@.last().0@ == name@,
            r.headers@.last().1@ == value@,
            r.body == self.body,
            r.timeout == self.timeout,
    {
        let mut r = self;
        r.headers.push((String::from_str(name), String::from_str(value)));
        r
    }

    /// Sets the request timeout to `t` (builder style).
    pub fn timeout(self, t: RequestTimeout) -> (r: Request)
        ensures
            r.method == self.method,
            r.url == self.url,
            r.headers == self.headers,
            r.body == self.body,
            r.timeout == Some(t),
    {
        let mut r = self;
        r.timeout = Some(t);
        r
    }
}

/// A response, with its body fully read.
#[derive(Debug, Clone)]
pub struct Response {
    /// HTTP status code.
    pub status: u16,
    /// Response headers as (name, value) pairs.
    pub headers: Vec<(String, String)>,
    /// The response body.
    pub body: Vec<u8>,
}

/// What `String::from_utf8_lossy` makes of `bytes`.
pub uninterp spec fn lossy_utf8(bytes: Seq<u8>) -> Seq<char>;

/// `String::from_utf8_lossy`: the bytes decoded as UTF-8, each invalid
/// sequence replaced by U+FFFD. The contract names the result, and states
/// that valid UTF-8 decodes exactly.
#[verifier::external_body]
fn utf8_lossy(bytes: &[u8]) -> (s: String)
    ensures
        s@ == lossy_utf8(bytes@),
        valid_utf8(bytes@) ==> s@ == decode_utf8(bytes@),
{
    String::from_utf8_lossy(bytes).into_owned()
}

impl Response {
    /// Whether the status is 2xx.
    pub fn is_success(&self) -> (r: bool)
        ensures
            r == (200 <= self.status < 300),
    {
        200 <= self.status && self.status < 300
    }

    /// The body as text, decoded lossily.
    pub fn text(&self) -> (s: String)
        ensures
            s@ == lossy_utf8(self.body@),
            valid_utf8(self.body@) ==> s@ == decode_utf8(self.body@),
    {
        utf8_lossy(self.body.as_slice())
    }
}

/// A failed request; most often a denied egress.
#[derive(Debug, Clone, PartialEq, Eq)]
pub struct HttpError {
    /// A short, guest-visible description.
    pub message: String,
}

impl HttpError {
    /// An error with this message.
    pub fn new(msg: &str) -> (e: HttpError)
        ensures
            e.message@ == msg@,
    {
        HttpError { message: String::from_str(msg) }
    }

    /// The error as displayed: `http: ` and the message.
    pub fn to_string(&self) -> (s: String)
        ensures
            s@ == "http: "@ + self.message@,
    {
        let mut s = String::from_str("http: ");
        s.append(self.message.as_str());
        s
    }
}

/// The URL scheme of an outgoing request.
#[derive(Debug, Clone, Copy, PartialEq, Eq, Structural)]
pub enum Scheme {
    Http,
    Https,
}

/// The method of an outgoing request.
#[derive(Debug, Clone, PartialEq, Eq)]
pub enum HttpMethod {
    Get,
    Post,
    Put,
    Delete,
    Head,
    Patch,
    Other(String),
}

/// The method named by `m`: the six common methods by their uppercase
/// names, anything else carried through as is.
pub open spec fn method_named(m: Seq<char>, r: HttpMethod) -> bool {
    if m == "GET"@ {
        r == HttpMethod::Get
    } else if m == "POST"@ {
        r == HttpMethod::Post
    } else if m == "PUT"@ {
        r == HttpMethod::Put
    } else if m == "DELETE"@ {
        r == HttpMethod::Delete
    } else if m == "HEAD"@ {
        r == HttpMethod::Head
    } else if m == "PATCH"@ {
        r == HttpMethod::Patch
    } else {
        r matches HttpMethod::Other(o) && o@ == m
    }
}

/// Maps a method name to the outgoing request's method.
pub fn method_of(m: &str) -> (r: HttpMethod)
    ensures
        method_named(m@, r),
{
    if str_eq(m, "GET") {
        HttpMethod::Get
    } else if str_eq(m, "POST") {
        HttpMethod::Post
    } else if str_eq(m, "PUT") {
        HttpMethod::Put
    } else if str_eq(m, "DELETE") {
        HttpMethod::Delete
    } else if str_eq(m, "HEAD") {
        HttpMethod::Head
    } else if str_eq(m, "PATCH") {
        HttpMethod::Patch
    } else {
        HttpMethod::Other(String::from_str(m))
    }
}

/// Where a request goes: scheme, authority (`host[:port]`) and path with
/// query.
#[derive(Debug, Clone, PartialEq, Eq)]
pub struct RequestTarget {
    pub scheme: Scheme,
    pub authority: String,
    pub path: String,
}

/// Splits what follows the scheme at the first `/`: the authority before it
/// and the path from it on (`/` when there is none).
pub open spec fn split_authority(rest: Seq<char>) -> (Seq<char>, Seq<char>) {
    match find_char_from(rest, 0, '/') {
        Some(i) => (rest.subrange(0, i), rest.subrange(i, rest.len() as int)),
        None => (rest, "/"@),
    }
}

/// The target of `url`: `http://` or `https://`, then authority and path;
/// `None` for any other scheme.
pub open spec fn url_target(url: Seq<char>) -> Option<(Scheme, Seq<char>, Seq<char>)> {
    if "http://"@.is_prefix_of(url) {
        let (a, p) = split_authority(url.subrange("http://"@.len() as int, url.len() as int));
        Some((Scheme::Http, a, p))
    } else if "https://"@.is_prefix_of(url) {
        let (a, p) = split_authority(url.subrange("https://"@.len() as int, url.len() as int));
        Some((Scheme::Https, a, p))
    } else {
        None
    }
}

fn split_rest(scheme: Scheme, rest: &str) -> (t: RequestTarget)
    ensures
        t.scheme == scheme,
        (t.authority@, t.path@) == split_authority(rest@),
{
    proof {
        lemma_find_char_from(rest@, 0, '/');
    }
    match find_char(rest, 0, '/') {
        Some(i) => RequestTarget {
            scheme,
            authority: String::from_str(substring(rest, 0, i)),
            path: String::from_str(substring(rest, i, rest.unicode_len())),
        },
        None => RequestTarget {
            scheme,
            authority: String::from_str(rest),
            path: String::from_str("/"),
        },
    }
}

/// The target of a request for `url`, or the error `unsupported url scheme:
/// <url>` when it is neither `http://` nor `https://`.
pub fn request_target(url: &str) -> (r: Result<RequestTarget, HttpError>)
    ensures
        match url_target(url@) {
            Some((s, a, p)) => r matches Ok(t) && t.scheme == s && t.authority@ == a && t.path@
                == p,
            None => r matches Err(e) && e.message@ == "unsupported url scheme: "@ + url@,
        },
{
    let plain = "http://";
    let secure = "https://";
    if str_starts_with(url, plain) {
        let rest = substring(url, plain.unicode_len(), url.unicode_len());
        Ok(split_rest(Scheme::Http, rest))
    } else if str_starts_with(url, secure) {
        let rest = substring(url, secure.unicode_len(), url.unicode_len());
        Ok(split_rest(Scheme::Https, rest))
    } else {
        let mut m = String::from_str("unsupported url scheme: ");
        m.append(url);
        Err(HttpError { message: m })
    }
}

/// A nanosecond count clamped to what a `u64` holds.
pub fn clamp_nanos(n: u128) -> (r: u64)
    ensures
        r == if n > u64::MAX as u128 {
            u64::MAX
        } else {
            n as u64
        },
{
    if n > u64::MAX as u128 {
        u64::MAX
    } else {
        n as u64
    }
}

/// A request as the outgoing handler takes it.
#[derive(Debug)]
pub struct PreparedRequest {
    pub method: HttpMethod,
    pub target: RequestTarget,
    /// The timeout in nanoseconds, clamped to `u64`, when one was set.
    pub timeout_nanos: Option<u64>,
}

/// Prepares `req` for dispatch: its target (an unsupported scheme is an
/// error, before anything else happens), its method, and its timeout in
/// nanoseconds.
pub fn prepare_request(req: &Request) -> (r: Result<PreparedRequest, HttpError>)
    ensures
        match url_target(req.url@) {
            Some((s, a, p)) => r matches Ok(pr) && pr.target.scheme == s && pr.target.authority@
                == a && pr.target.path@ == p && method_named(req.method@, pr.method) && (
            pr.timeout_nanos == match req.timeout {
                Some(t) => Some(clamped_nanos(timeout_total_nanos(t))),
                None => None,
            }),
            None => r matches Err(e) && e.message@ == "unsupported url scheme: "@ + req.url@,
        },
{
    let target = match request_target(req.url.as_str()) {
        Ok(t) => t,
        Err(e) => return Err(e),
    };
    let method = method_of(req.method.as_str());
    let timeout_nanos = match &req.timeout {
        Some(t) => Some(t.nanos()),
        None => None,
    };
    Ok(PreparedRequest { method, target, timeout_nanos })
}

/// The name a method goes by on the wire.
pub open spec fn method_name(m: HttpMethod) -> Seq<char> {
    match m {
        HttpMethod::Get => "GET"@,
        HttpMethod::Post => "POST"@,
        HttpMethod::Put => "PUT"@,
        HttpMethod::Delete => "DELETE"@,
        HttpMethod::Head => "HEAD"@,
        HttpMethod::Patch => "PATCH"@,
        HttpMethod::Other(o) => o@,
    }
}

/// The method a request is prepared with goes by the very name the request
/// gave: different names never become the same method, and a standard name
/// never becomes another standard method.
pub proof fn lemma_method_keeps_its_name(m: Seq<char>, r: HttpMethod)
    requires
        method_named(m, r),
    ensures
        method_name(r) == m,
{
}

/// Two names prepared to the same method are the same name.
pub proof fn lemma_methods_are_distinct(m1: Seq<char>, m2: Seq<char>, r: HttpMethod)
    requires
        method_named(m1, r),
        method_named(m2, r),
    ensures
        m1 == m2,
{
    lemma_method_keeps_its_name(m1, r);
    lemma_method_keeps_its_name(m2, r);
}

} // verus!
