use vstd::prelude::*;
use vstd::utf8::encode_utf8;

use crate::worker::{WorkerUri, WorkerUriView};

verus! {

/// An HTTP header: its name, lower case as the HTTP layer hands it over, and
/// its raw value.
pub struct Header {
    pub name: String,
    pub value: Vec<u8>,
}

pub open spec fn headers_view(s: Seq<Header>) -> Seq<(Seq<char>, Seq<u8>)> {
    s.map_values(|h: Header| (h.name@, h.value@))
}

pub open spec fn host_header_name() -> Seq<char> {
    seq!['h', 'o', 's', 't']
}

/// The name of the header that marks responses of the proxy.
pub open spec fn marker_header_name() -> Seq<char> {
    seq!['x', '-', 'p', 'r', 'o', 'x', 'i', 'e', 'd', '-', 'f', 'r', 'o', 'm']
}

/// The name the proxy gives itself in its marker header.
pub open spec fn proxy_name() -> Seq<char> {
    seq!['r', 'u', 's', 't', 'y', '-', 'l', 'o', 'a', 'd', '-', 'b', 'a', 'l', 'a', 'n', 'c', 'e', 'r']
}

pub open spec fn marker_header() -> (Seq<char>, Seq<u8>) {
    (marker_header_name(), encode_utf8(proxy_name()))
}

/// `s` without its `Host` headers, the others in order.
pub open spec fn without_host(s: Seq<(Seq<char>, Seq<u8>)>) -> Seq<(Seq<char>, Seq<u8>)>
    decreases s.len(),
{
    if s.len() == 0 {
        Seq::empty()
    } else {
        let rest = without_host(s.drop_last());
        if s.last().0 == host_header_name() {
            rest
        } else {
            rest.push(s.last())
        }
    }
}

/// The headers sent to a worker: the inbound ones but `Host`, then `Host` set
/// to the worker's authority.
pub open spec fn upstream_headers_of(inbound: Seq<(Seq<char>, Seq<u8>)>, authority: Seq<char>) -> Seq<
    (Seq<char>, Seq<u8>),
> {
    without_host(inbound).push((host_header_name(), encode_utf8(authority)))
}

/// Header fidelity upstream: the headers sent to a worker hold exactly one
/// `Host` header, the worker's authority, last; every other inbound header is
/// among them, and they hold no other header.
pub proof fn lemma_upstream_headers_fidelity(inbound: Seq<(Seq<char>, Seq<u8>)>, authority: Seq<char>)
    ensures
        upstream_headers_of(inbound, authority).last() == (host_header_name(), encode_utf8(authority)),
        forall|i: int|
            0 <= i < upstream_headers_of(inbound, authority).len() - 1 ==> (#[trigger] upstream_headers_of(
                inbound,
                authority,
            )[i]).0 != host_header_name(),
        forall|h: (Seq<char>, Seq<u8>)|
            h.0 != host_header_name() ==> (#[trigger] upstream_headers_of(inbound, authority).contains(h)
                <==> inbound.contains(h)),
{
    lemma_without_host(inbound);
    let w = without_host(inbound);
    let u = upstream_headers_of(inbound, authority);
    assert forall|i: int| 0 <= i < u.len() - 1 implies (#[trigger] u[i]).0 != host_header_name() by {
        assert(u[i] == w[i]);
    }
    assert forall|h: (Seq<char>, Seq<u8>)|
        h.0 != host_header_name() implies (#[trigger] u.contains(h) <==> inbound.contains(h)) by {
        if u.contains(h) {
            let k = choose|k: int| 0 <= k < u.len() && u[k] == h;
            assert(k < w.len());
            assert(w.contains(h));
        }
        if w.contains(h) {
            let k = choose|k: int| 0 <= k < w.len() && w[k] == h;
            assert(u[k] == h);
        }
    }
}

proof fn lemma_without_host(s: Seq<(Seq<char>, Seq<u8>)>)
    ensures
        forall|i: int| 0 <= i < without_host(s).len() ==> (#[trigger] without_host(s)[i]).0 != host_header_name(),
        forall|h: (Seq<char>, Seq<u8>)|
            h.0 != host_header_name() ==> (#[trigger] without_host(s).contains(h) <==> s.contains(h)),
    decreases s.len(),
{
    if s.len() > 0 {
        let init = s.drop_last();
        lemma_without_host(init);
        let r = without_host(init);
        assert forall|h: (Seq<char>, Seq<u8>)|
            h.0 != host_header_name() implies (#[trigger] without_host(s).contains(h) <==> s.contains(h)) by {
            if s.contains(h) {
                let k = choose|k: int| 0 <= k < s.len() && s[k] == h;
                if k < s.len() - 1 {
                    assert(init[k] == h);
                    assert(r.contains(h));
                    if s.last().0 != host_header_name() {
                        let j = choose|j: int| 0 <= j < r.len() && r[j] == h;
                        assert(r.push(s.last())[j] == h);
                    }
                } else {
                    assert(r.push(s.last())[r.len() as int] == h);
                }
            }
            if without_host(s).contains(h) {
                if s.last().0 != host_header_name() && h == s.last() {
                    assert(s[s.len() - 1] == h);
                } else {
                    let j = choose|j: int| 0 <= j < without_host(s).len() && without_host(s)[j] == h;
                    if s.last().0 != host_header_name() {
                        assert(j < r.len());
                        assert(r[j] == h);
                    }
                    assert(r.contains(h));
                    let k = choose|k: int| 0 <= k < init.len() && init[k] == h;
                    assert(s[k] == h);
                }
            }
        }
    }
}

/// The status of every response that the proxy makes up itself.
pub const SERVICE_UNAVAILABLE: u16 = 503;

/// A response that the proxy answers with itself, without a worker.
pub struct ProxyResponse {
    pub status: u16,
    pub headers: Vec<Header>,
    pub body: String,
}

/// `r` is a 503 that carries the marker header alone and `body`.
pub open spec fn is_unavailable(r: ProxyResponse, body: Seq<char>) -> bool {
    &&& r.status == SERVICE_UNAVAILABLE
    &&& headers_view(r.headers@) == seq![marker_header()]
    &&& r.body@ == body
}

pub open spec fn no_workers_body() -> Seq<char> {
    seq!['v', 'a', 'l', 'u', 'e']
}

pub open spec fn error_body(message: Seq<char>) -> Seq<char> {
    seq!['U', 'n', 'e', 'x', 'p', 'e', 'c', 't', 'e', 'd', ' ', 'e', 'r', 'r', 'o', 'r', ':', ' ']
        + message
}

/// The URI of the request sent to a worker: the worker's scheme, host and port,
/// then the inbound path and query.
pub open spec fn target_of(address: WorkerUriView, path_and_query: Option<Seq<char>>) -> Seq<char> {
    match path_and_query {
        Some(pq) => address.origin() + pq,
        None => address.origin(),
    }
}

fn marker() -> (r: Header)
    ensures
        (r.name@, r.value@) == marker_header(),
{
    let name = String::from_str("x-proxied-from");
    let value = "rusty-load-balancer".as_bytes_vec();
    proof {
        reveal_strlit("x-proxied-from");
        reveal_strlit("rusty-load-balancer");
        assert("rusty-load-balancer"@ =~= proxy_name());
        assert(name@ =~= marker_header_name());
    }
    Header { name, value }
}

fn copy_header(h: &Header) -> (r: Header)
    ensures
        r.name@ == h.name@,
        r.value@ == h.value@,
{
    let mut value: Vec<u8> = Vec::new();
    let mut i: usize = 0;
    while i < h.value.len()
        invariant
            0 <= i <= h.value@.len(),
            value@ == h.value@.take(i as int),
        decreases h.value@.len() - i,
    {
        value.push(h.value[i]);
        assert(h.value@.take(i + 1) =~= h.value@.take(i as int).push(h.value@[i as int]));
        i = i + 1;
    }
    assert(h.value@.take(i as int) =~= h.value@);
    Header { name: h.name.clone(), value }
}

/// The headers to send to a worker whose authority is `authority`: every
/// inbound header but `Host`, verbatim and in order, then `Host: authority`.
pub fn upstream_headers(inbound: &Vec<Header>, authority: &str) -> (r: Vec<Header>)
    ensures
        headers_view(r@) == upstream_headers_of(headers_view(inbound@), authority@),
{
    let ghost all = headers_view(inbound@);
    let mut out: Vec<Header> = Vec::new();
    let host = String::from_str("host");
    proof {
        reveal_strlit("host");
    }
    let mut i: usize = 0;
    while i < inbound.len()
        invariant
            0 <= i <= inbound@.len(),
            all == headers_view(inbound@),
            host@ == host_header_name(),
            headers_view(out@) =~= without_host(all.take(i as int)),
        decreases inbound@.len() - i,
    {
        assert(all.take(i + 1).drop_last() =~= all.take(i as int));
        if inbound[i].name != host {
            out.push(copy_header(&inbound[i]));
        }
        i = i + 1;
    }
    assert(all.take(i as int) =~= all);
    out.push(Header { name: host, value: authority.as_bytes_vec() });
    assert(headers_view(out@) =~= upstream_headers_of(all, authority@));
    out
}

/// The headers to relay to the client: the worker's, verbatim and in order,
/// then the marker header.
pub fn relay_headers(upstream: Vec<Header>) -> (r: Vec<Header>)
    ensures
        headers_view(r@) == headers_view(upstream@).push(marker_header()),
{
    let mut r = upstream;
    let ghost before = r@;
    r.push(marker());
    assert(headers_view(r@) =~= headers_view(before).push(marker_header()));
    r
}

fn unavailable(body: String) -> (r: ProxyResponse)
    ensures
        is_unavailable(r, body@),
{
    let mut headers: Vec<Header> = Vec::new();
    headers.push(marker());
    assert(headers_view(headers@) =~= seq![marker_header()]);
    ProxyResponse { status: SERVICE_UNAVAILABLE, headers, body }
}

/// The answer when no worker is available.
pub fn no_workers_response() -> (r: ProxyResponse)
    ensures
        is_unavailable(r, no_workers_body()),
{
    let body = String::from_str("value");
    proof {
        reveal_strlit("value");
        assert(body@ =~= no_workers_body());
    }
    unavailable(body)
}

/// The answer when forwarding failed with the error described by `message`.
pub fn error_response(message: &str) -> (r: ProxyResponse)
    ensures
        is_unavailable(r, error_body(message@)),
{
    let prefix = String::from_str("Unexpected error: ");
    proof {
        reveal_strlit("Unexpected error: ");
    }
    let body = prefix.concat(message);
    assert(body@ =~= error_body(message@));
    unavailable(body)
}

/// The URI to send a request for `path_and_query` to, at the worker `address`.
pub fn upstream_target(address: &WorkerUri, path_and_query: &Option<String>) -> (r: String)
    ensures
        r@ == target_of(address@, match path_and_query {
            Some(pq) => Some(pq@),
            None => None,
        }),
{
    let origin = address.origin();
    match path_and_query {
        Some(pq) => origin.concat(pq.as_str()),
        None => origin,
    }
}

} // verus!
