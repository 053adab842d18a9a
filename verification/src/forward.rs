//! Reverse-proxy forwarding: target construction, the gateway marker header,
//! and outcome accounting.
//!
//! The network call itself happens outside; this module derives the exact
//! target URL, and turns the outcome the caller observed — the upstream's
//! response, or a transport failure — into the response to return, recording
//! latency and errors on the way.

use vstd::prelude::*;

use crate::http::{push_header, HttpResponse};
use crate::metrics::{counter_bump, sat_add, sat_inc, Metrics};
use crate::strutil::{ascii_bytes, str_eq, str_to_bytes};

verus! {

/// Why forwarding failed: the upstream could not be reached at all, or it
/// misbehaved at the protocol level. Both count as one failed attempt;
/// nothing is retried.
#[derive(Clone, Copy, Debug, PartialEq, Eq, Structural)]
pub enum UpstreamError {
    Unreachable,
    Protocol,
}

/// The request's path-and-query string: the path, and the query appended
/// after `?` when one is present.
pub open spec fn path_and_query_spec(path: Seq<char>, query: Option<Seq<char>>) -> Seq<char> {
    match query {
        Some(q) => path + "?"@ + q,
        None => path,
    }
}

/// Joins path and optional query, as they appear on the request line.
pub fn path_and_query(path: &str, query: Option<&str>) -> (r: String)
    ensures
        query matches Some(q) ==> r@ == path_and_query_spec(path@, Some(q@)),
        query is None ==> r@ == path_and_query_spec(path@, None),
{
    match query {
        Some(q) => {
            let mut s = String::from_str(path);
            s.append("?");
            s.append(q);
            proof {
                assert(s@ =~= path@ + "?"@ + q@);
            }
            s
        },
        None => String::from_str(path),
    }
}

/// The exact target URL a request is forwarded to: the upstream base with
/// the original path-and-query appended unchanged.
pub fn proxy_target(upstream_base: &str, path_and_query: &str) -> (r: String)
    ensures
        r@ == upstream_base@ + path_and_query@,
{
    let mut s = String::from_str(upstream_base);
    s.append(path_and_query);
    s
}

/// Law: forwarding preserves the request target exactly — the target URL
/// is the upstream base followed by the original path and query, unchanged.
pub proof fn lemma_path_preservation(base: Seq<char>, path: Seq<char>, query: Seq<char>)
    ensures
        base + path_and_query_spec(path, Some(query)) == base + path + "?"@ + query,
        base + path_and_query_spec(path, None) == base + path,
{
    assert(base + (path + "?"@ + query) =~= base + path + "?"@ + query);
}

/// The headers with any previous gateway marker removed, in order.
pub open spec fn drop_marker_spec(headers: Seq<(Seq<char>, Seq<char>)>) -> Seq<
    (Seq<char>, Seq<char>),
>
    decreases headers.len(),
{
    if headers.len() == 0 {
        Seq::<(Seq<char>, Seq<char>)>::empty()
    } else {
        let rest = drop_marker_spec(headers.drop_last());
        if headers.last().0 == "x-proxy"@ {
            rest
        } else {
            rest.push(headers.last())
        }
    }
}

/// The upstream's headers with the gateway marker `x-proxy: rust-proxy` set:
/// any previous marker is replaced, everything else is kept in order.
pub open spec fn with_marker_spec(headers: Seq<(Seq<char>, Seq<char>)>) -> Seq<
    (Seq<char>, Seq<char>),
> {
    drop_marker_spec(headers).push(("x-proxy"@, "rust-proxy"@))
}

/// Sets the gateway marker header on a response passed through unchanged
/// otherwise.
pub fn apply_marker(resp: HttpResponse) -> (r: HttpResponse)
    ensures
        r.status == resp.status,
        r.body@ == resp.body@,
        r.headers_view() == with_marker_spec(resp.headers_view()),
{
    let n = resp.headers.len();
    let mut headers: Vec<(String, String)> = Vec::new();
    let mut i: usize = 0;
    while i < n
        invariant
            n == resp.headers@.len(),
            i <= n,
            headers.deep_view() == drop_marker_spec(resp.headers.deep_view().subrange(0, i as int)),
        decreases n - i,
    {
        let keep = {
            let e = &resp.headers[i];
            !str_eq(e.0.as_str(), "x-proxy")
        };
        if keep {
            let pair = {
                let e = &resp.headers[i];
                (e.0.clone(), e.1.clone())
            };
            headers.push(pair);
        }
        proof {
            let pre = resp.headers.deep_view().subrange(0, i as int);
            let cur = resp.headers.deep_view().subrange(0, i + 1);
            assert(cur.drop_last() =~= pre);
            assert(cur.last() == resp.headers.deep_view()[i as int]);
            assert(headers.deep_view() =~= drop_marker_spec(cur));
        }
        i += 1;
    }
    push_header(&mut headers, "x-proxy", String::from_str("rust-proxy"));
    proof {
        assert(resp.headers.deep_view().subrange(0, n as int) =~= resp.headers.deep_view());
    }
    HttpResponse { status: resp.status, headers, body: resp.body }
}

/// Counts one proxied request, labeled by its path, before it is forwarded.
pub fn record_proxy_request(metrics: &mut Metrics, path: &str)
    ensures
        final(metrics).requests_total.entries_view() == counter_bump(
            old(metrics).requests_total.entries_view(),
            path@,
        ),
        final(metrics).errors_total == old(metrics).errors_total,
        final(metrics).frontend_events_total == old(metrics).frontend_events_total,
        final(metrics).upstream_latency == old(metrics).upstream_latency,
        final(metrics).rate_limited_total == old(metrics).rate_limited_total,
{
    metrics.requests_total.increment(path);
}

/// Turns the forwarding outcome into the response the gateway returns.
///
/// A success passes the upstream response through with the marker header
/// set; a failure becomes a plain 500 and counts one upstream error. The
/// round-trip latency the caller measured is recorded either way.
pub fn proxy_fallback(
    upstream: Result<HttpResponse, UpstreamError>,
    elapsed_nanos: u64,
    metrics: &mut Metrics,
) -> (r: HttpResponse)
    ensures
        final(metrics).upstream_latency.count_view() == sat_inc(
            old(metrics).upstream_latency.count_view(),
        ),
        final(metrics).upstream_latency.sum_nanos_view() == sat_add(
            old(metrics).upstream_latency.sum_nanos_view(),
            elapsed_nanos as int,
        ),
        final(metrics).requests_total == old(metrics).requests_total,
        final(metrics).frontend_events_total == old(metrics).frontend_events_total,
        final(metrics).rate_limited_total == old(metrics).rate_limited_total,
        upstream matches Ok(resp) ==> {
            &&& r.status == resp.status
            &&& r.body@ == resp.body@
            &&& r.headers_view() == with_marker_spec(resp.headers_view())
            &&& final(metrics).errors_total == old(metrics).errors_total
        },
        upstream is Err ==> {
            &&& r.status == 500
            &&& r.body@ == ascii_bytes("Internal Server Error"@)
            &&& r.headers_view() == Seq::<(Seq<char>, Seq<char>)>::empty()
            &&& final(metrics).errors_total.entries_view() == counter_bump(
                old(metrics).errors_total.entries_view(),
                "upstream_error"@,
            )
        },
{
    metrics.upstream_latency.record(elapsed_nanos);
    match upstream {
        Ok(resp) => apply_marker(resp),
        Err(_) => {
            metrics.errors_total.increment("upstream_error");
            let r = HttpResponse {
                status: 500,
                headers: Vec::new(),
                body: str_to_bytes("Internal Server Error"),
            };
            proof {
                assert(r.headers_view() =~= Seq::<(Seq<char>, Seq<char>)>::empty());
            }
            r
        },
    }
}

} // verus!
