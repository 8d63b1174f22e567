use vstd::prelude::*;
use crate::text::{ascii_lowercase, copy_bytes, lowercase_equals};

verus! {

/// A header: its name and its raw value.
pub type Header = (String, Vec<u8>);

/// Headers with their names and values taken as sequences.
pub open spec fn header_views(h: Seq<Header>) -> Seq<(Seq<char>, Seq<u8>)> {
    h.map_values(|x: Header| (x.0@, x.1@))
}

/// Headers that concern one connection only, which the proxy never passes
/// upstream, by lowercase name.
pub open spec fn is_skipped_request_name(lower: Seq<char>) -> bool {
    ||| lower == "connection"@
    ||| lower == "keep-alive"@
    ||| lower == "proxy-authenticate"@
    ||| lower == "proxy-authorization"@
    ||| lower == "te"@
    ||| lower == "trailer"@
    ||| lower == "transfer-encoding"@
    ||| lower == "upgrade"@
    ||| lower == "host"@
    ||| lower == "content-length"@
}

/// Upstream response headers that the proxy never passes back, by lowercase
/// name.
pub open spec fn is_skipped_response_name(lower: Seq<char>) -> bool {
    ||| lower == "connection"@
    ||| lower == "keep-alive"@
    ||| lower == "proxy-authenticate"@
    ||| lower == "proxy-authorization"@
    ||| lower == "te"@
    ||| lower == "trailer"@
    ||| lower == "transfer-encoding"@
    ||| lower == "upgrade"@
    ||| lower == "content-length"@
    ||| lower == "content-encoding"@
}

/// Whether a request header stays behind, compared without ASCII case.
pub fn should_skip_request_header(name: &str) -> (r: bool)
    ensures
        r == is_skipped_request_name(ascii_lowercase(name@)),
{
    lowercase_equals(name, "connection") || lowercase_equals(name, "keep-alive")
        || lowercase_equals(name, "proxy-authenticate") || lowercase_equals(
        name,
        "proxy-authorization",
    ) || lowercase_equals(name, "te") || lowercase_equals(name, "trailer") || lowercase_equals(
        name,
        "transfer-encoding",
    ) || lowercase_equals(name, "upgrade") || lowercase_equals(name, "host") || lowercase_equals(
        name,
        "content-length",
    )
}

/// Whether an upstream response header stays behind, compared without ASCII
/// case.
pub fn should_skip_response_header(name: &str) -> (r: bool)
    ensures
        r == is_skipped_response_name(ascii_lowercase(name@)),
{
    lowercase_equals(name, "connection") || lowercase_equals(name, "keep-alive")
        || lowercase_equals(name, "proxy-authenticate") || lowercase_equals(
        name,
        "proxy-authorization",
    ) || lowercase_equals(name, "te") || lowercase_equals(name, "trailer") || lowercase_equals(
        name,
        "transfer-encoding",
    ) || lowercase_equals(name, "upgrade") || lowercase_equals(name, "content-length")
        || lowercase_equals(name, "content-encoding")
}

/// Whether a request header goes upstream: not a per-connection one, and not
/// the client's `Authorization` when the proxy injects its own token.
pub open spec fn keeps_request_header(injecting: bool) -> spec_fn((Seq<char>, Seq<u8>)) -> bool {
    |h: (Seq<char>, Seq<u8>)|
        !is_skipped_request_name(ascii_lowercase(h.0)) && !(injecting && ascii_lowercase(h.0)
            == "authorization"@)
}

/// Whether an upstream response header comes back to the client.
pub open spec fn keeps_response_header() -> spec_fn((Seq<char>, Seq<u8>)) -> bool {
    |h: (Seq<char>, Seq<u8>)| !is_skipped_response_name(ascii_lowercase(h.0))
}

fn copy_header(h: &Header) -> (r: Header)
    ensures
        r.0@ == h.0@,
        r.1@ == h.1@,
{
    (h.0.clone(), copy_bytes(h.1.as_slice()))
}

/// The request headers that go upstream, in order; the token that the proxy
/// injects, if any, is added as bearer authorization by the caller.
pub fn forwarded_request_headers(headers: &Vec<Header>, injecting: bool) -> (r: Vec<Header>)
    ensures
        header_views(r@) == header_views(headers@).filter(keeps_request_header(injecting)),
{
    let ghost hv = header_views(headers@);
    let mut out: Vec<Header> = Vec::new();
    let mut i: usize = 0;
    while i < headers.len()
        invariant
            hv == header_views(headers@),
            i <= headers@.len(),
            header_views(out@) == hv.take(i as int).filter(keeps_request_header(injecting)),
        decreases headers@.len() - i,
    {
        let ghost prev = out@;
        proof {
            reveal_with_fuel(Seq::<_>::filter, 1);
            assert(hv.take(i + 1).drop_last() =~= hv.take(i as int));
            assert(hv.take(i + 1).last() == hv[i as int]);
        }
        let name = headers[i].0.as_str();
        let skip = should_skip_request_header(name) || (injecting && lowercase_equals(
            name,
            "authorization",
        ));
        if !skip {
            out.push(copy_header(&headers[i]));
            assert(header_views(out@) =~= header_views(prev).push(hv[i as int]));
        }
        i = i + 1;
    }
    assert(hv.take(hv.len() as int) =~= hv);
    out
}

/// The upstream response headers that come back to the client, in order.
pub fn response_headers(headers: &Vec<Header>) -> (r: Vec<Header>)
    ensures
        header_views(r@) == header_views(headers@).filter(keeps_response_header()),
{
    let ghost hv = header_views(headers@);
    let mut out: Vec<Header> = Vec::new();
    let mut i: usize = 0;
    while i < headers.len()
        invariant
            hv == header_views(headers@),
            i <= headers@.len(),
            header_views(out@) == hv.take(i as int).filter(keeps_response_header()),
        decreases headers@.len() - i,
    {
        let ghost prev = out@;
        proof {
            reveal_with_fuel(Seq::<_>::filter, 1);
            assert(hv.take(i + 1).drop_last() =~= hv.take(i as int));
            assert(hv.take(i + 1).last() == hv[i as int]);
        }
        if !should_skip_response_header(headers[i].0.as_str()) {
            out.push(copy_header(&headers[i]));
            assert(header_views(out@) =~= header_views(prev).push(hv[i as int]));
        }
        i = i + 1;
    }
    assert(hv.take(hv.len() as int) =~= hv);
    out
}


/// The client's `Authorization` header goes upstream when the proxy injects
/// no token of its own, and stays behind when it does.
pub proof fn lemma_authorization_pass_through(name: Seq<char>, value: Seq<u8>)
    requires
        ascii_lowercase(name) == "authorization"@,
    ensures
        keeps_request_header(false)((name, value)),
        !keeps_request_header(true)((name, value)),
{
    reveal_strlit("authorization");
    reveal_strlit("connection");
    reveal_strlit("keep-alive");
    reveal_strlit("proxy-authenticate");
    reveal_strlit("proxy-authorization");
    reveal_strlit("te");
    reveal_strlit("trailer");
    reveal_strlit("transfer-encoding");
    reveal_strlit("upgrade");
    reveal_strlit("host");
    reveal_strlit("content-length");
    let a = "authorization"@;
    assert(a.len() == 13);
    assert(a != "connection"@);
    assert(a != "keep-alive"@);
    assert(a != "proxy-authenticate"@);
    assert(a != "proxy-authorization"@);
    assert(a != "te"@);
    assert(a != "trailer"@);
    assert(a != "transfer-encoding"@);
    assert(a != "upgrade"@);
    assert(a != "host"@);
    assert(a != "content-length"@);
    assert(!is_skipped_request_name(a));
}

/// Whether a lowercase name is one of the per-connection headers of HTTP/1.1,
/// or `host` or `content-length`, which the client's connection fixes.
pub open spec fn is_hop_by_hop_request(n: Seq<char>) -> bool {
    n == "connection"@ || n == "keep-alive"@ || n == "proxy-authenticate"@ || n
        == "proxy-authorization"@ || n == "te"@ || n == "trailer"@ || n == "transfer-encoding"@
        || n == "upgrade"@ || n == "host"@ || n == "content-length"@
}

/// Whether a lowercase name is one of the per-connection headers of HTTP/1.1,
/// or `content-length` or `content-encoding`, which the proxy's own answer
/// fixes.
pub open spec fn is_hop_by_hop_response(n: Seq<char>) -> bool {
    n == "connection"@ || n == "keep-alive"@ || n == "proxy-authenticate"@ || n
        == "proxy-authorization"@ || n == "te"@ || n == "trailer"@ || n == "transfer-encoding"@
        || n == "upgrade"@ || n == "content-length"@ || n == "content-encoding"@
}

/// Of the client's request headers, none of `connection`, `keep-alive`,
/// `proxy-authenticate`, `proxy-authorization`, `te`, `trailer`,
/// `transfer-encoding`, `upgrade`, `host` and `content-length` goes
/// upstream, in any ASCII case, nor `Authorization` when the proxy injects a
/// token; every other header does.
pub proof fn lemma_request_headers_drop_hop_by_hop(
    headers: Seq<(Seq<char>, Seq<u8>)>,
    injecting: bool,
)
    ensures
        forall|i: int|
            0 <= i < headers.filter(keeps_request_header(injecting)).len() ==> {
                let n = ascii_lowercase(
                    (#[trigger] headers.filter(keeps_request_header(injecting))[i]).0,
                );
                !is_hop_by_hop_request(n) && !(injecting && n == "authorization"@)
            },
        forall|i: int|
            0 <= i < headers.len() && !is_hop_by_hop_request(ascii_lowercase(headers[i].0))
                && !(injecting && ascii_lowercase(headers[i].0) == "authorization"@)
                ==> headers.filter(keeps_request_header(injecting)).contains(#[trigger] headers[i]),
{
    headers.filter_lemma(keeps_request_header(injecting));
}

/// Of the upstream's response headers, exactly `connection`, `keep-alive`,
/// `proxy-authenticate`, `proxy-authorization`, `te`, `trailer`,
/// `transfer-encoding`, `upgrade`, `content-length` and `content-encoding`
/// stay behind, in any ASCII case; every other header comes back.
pub proof fn lemma_response_headers_drop_hop_by_hop(headers: Seq<(Seq<char>, Seq<u8>)>)
    ensures
        forall|i: int|
            0 <= i < headers.filter(keeps_response_header()).len() ==> !is_hop_by_hop_response(
                ascii_lowercase((#[trigger] headers.filter(keeps_response_header())[i]).0),
            ),
        forall|i: int|
            0 <= i < headers.len() && !is_hop_by_hop_response(ascii_lowercase(headers[i].0))
                ==> headers.filter(keeps_response_header()).contains(#[trigger] headers[i]),
{
    headers.filter_lemma(keeps_response_header());
}

} // verus!
