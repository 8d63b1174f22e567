use vstd::prelude::*;
use crate::config::{active_upstream, active_value, AppConfig};
use crate::forward::{prepare_forward_body, prepared, ForwardBody};
use crate::headers::{forwarded_request_headers, header_views, keeps_request_header, Header};
use crate::text::{copy_bytes, str_eq};

verus! {

/// What the proxy sends upstream for one client request.
pub struct UpstreamRequest {
    pub url: String,
    pub headers: Vec<Header>,
    /// The token to send as bearer authorization, if the proxy injects one.
    pub bearer_token: Option<String>,
    /// The body, unless the method is `GET` or `HEAD`.
    pub body: Option<Vec<u8>>,
    pub forward: ForwardBody,
}

pub open spec fn opt_text(o: Option<String>) -> Option<Seq<char>> {
    match o {
        Some(s) => Some(s@),
        None => None,
    }
}

/// Whether a request method carries no body upstream.
pub open spec fn bodiless_method(method: Seq<char>) -> bool {
    method == "GET"@ || method == "HEAD"@
}

/// Whether a request asks for the proxy's own health report.
pub open spec fn is_health_check(path: Seq<char>, method: Seq<char>) -> bool {
    path == "/health"@ && method == "GET"@
}

/// Whether a request asks for the proxy's own health report rather than
/// going upstream.
pub fn is_health_request(path: &str, method: &str) -> (r: bool)
    ensures
        r == is_health_check(path@, method@),
{
    str_eq(path, "/health") && str_eq(method, "GET")
}

/// The status the client sees for an upstream status code: the code itself
/// when it is a valid HTTP status, else 502.
pub fn response_status(code: u16) -> (r: u16)
    ensures
        r == if 100 <= code && code <= 999 {
            code
        } else {
            502
        },
{
    if 100 <= code && code <= 999 {
        code
    } else {
        502
    }
}

/// Why a request could not be forwarded.
#[derive(Debug, Clone, Copy, PartialEq, Eq, Structural)]
pub enum ProxyFailure {
    /// The client's request body could not be read.
    BodyUnreadable,
    /// The upstream could not be reached or did not answer.
    UpstreamUnreachable,
}

/// The status of the answer to a failure: 400 for an unreadable body, 502
/// when the upstream fails.
pub open spec fn failure_status(f: ProxyFailure) -> u16 {
    match f {
        ProxyFailure::BodyUnreadable => 400,
        ProxyFailure::UpstreamUnreachable => 502,
    }
}

/// The message of the answer to a failure, followed by the cause's own text.
pub open spec fn failure_message(f: ProxyFailure, detail: Seq<char>) -> Seq<char> {
    match f {
        ProxyFailure::BodyUnreadable => "failed to read request body: "@ + detail,
        ProxyFailure::UpstreamUnreachable => "proxy upstream failure: "@ + detail,
    }
}

/// The status and message the client gets for a failure, whose cause reads
/// `detail`; the message goes into the body that `error_document` builds.
pub fn failure_answer(f: ProxyFailure, detail: &str) -> (r: (u16, String))
    ensures
        r.0 == failure_status(f),
        r.1@ == failure_message(f, detail@),
{
    let (status, prefix) = match f {
        ProxyFailure::BodyUnreadable => (400u16, "failed to read request body: "),
        ProxyFailure::UpstreamUnreachable => (502u16, "proxy upstream failure: "),
    };
    let mut message = String::from_str(prefix);
    message.append(detail);
    (status, message)
}

/// Builds the upstream request for a client request: the active provider's
/// upstream URL (the configured `upstream_url` when no provider is active or
/// it names none), the client's headers without per-connection ones (and without its
/// `Authorization` when a token is injected), the active token, and the
/// prepared body unless the method is `GET` or `HEAD`.
pub fn plan_upstream_request(
    config: &AppConfig,
    method: &str,
    headers: &Vec<Header>,
    raw_body: &[u8],
) -> (r: UpstreamRequest)
    ensures
        r.url@ == active_upstream(config@),
        opt_text(r.bearer_token) == active_value(config@),
        header_views(r.headers@) == header_views(headers@).filter(
            keeps_request_header(active_value(config@) is Some),
        ),
        prepared(r.forward, raw_body@, config@.drop_truncation, config@.reasoning_effort),
        match r.body {
            Some(b) => !bodiless_method(method@) && b@ == r.forward.body@,
            None => bodiless_method(method@),
        },
{
    let forward = prepare_forward_body(raw_body, config.drop_truncation, config.reasoning_effort);
    let bearer_token = match config.active_token_value() {
        Some(v) => Some(String::from_str(v)),
        None => None,
    };
    let injecting = bearer_token.is_some();
    let forwarded = forwarded_request_headers(headers, injecting);
    let body = if str_eq(method, "GET") || str_eq(method, "HEAD") {
        None
    } else {
        Some(copy_bytes(forward.body.as_slice()))
    };
    UpstreamRequest {
        url: String::from_str(config.active_upstream_url()),
        headers: forwarded,
        bearer_token,
        body,
        forward,
    }
}

} // verus!
